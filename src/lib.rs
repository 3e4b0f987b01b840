//! A cooperative user-space threading runtime: tasks with private stacks are
//! queued on per-core workers, switched in and out on yield and on return, and
//! taken over by idle workers from busy ones.
//!
//! This crate holds the scheduler's state and its transitions. Saving and
//! restoring registers, and running workers on OS threads, is left to the
//! embedding program, which performs the switch that each transition asks for.
pub mod context;
pub mod task;
pub mod machine;
pub mod runtime;
