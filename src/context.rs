use vstd::prelude::*;

verus! {

/// The callee-saved registers of the x86-64 System V calling convention: all
/// that is needed to resume a suspended flow of control. `rsp` is where the
/// switch routine returns to when it loads this context.
#[derive(Clone, Copy, Debug, PartialEq, Eq, Structural)]
pub struct ThreadContext {
    pub rsp: u64,
    pub r15: u64,
    pub r14: u64,
    pub r13: u64,
    pub r12: u64,
    pub rbx: u64,
    pub rbp: u64,
}

impl ThreadContext {
    /// Holds the context whose registers are all zero.
    pub open spec fn is_zero(&self) -> bool {
        &&& self.rsp == 0
        &&& self.r15 == 0
        &&& self.r14 == 0
        &&& self.r13 == 0
        &&& self.r12 == 0
        &&& self.rbx == 0
        &&& self.rbp == 0
    }

    /// A context with every register cleared.
    pub fn new() -> (r: ThreadContext)
        ensures
            r.is_zero(),
    {
        ThreadContext { rsp: 0, r15: 0, r14: 0, r13: 0, r12: 0, rbx: 0, rbp: 0 }
    }
}

impl Default for ThreadContext {
    fn default() -> (r: ThreadContext)
        ensures
            r.is_zero(),
    {
        ThreadContext::new()
    }
}

} // verus!
