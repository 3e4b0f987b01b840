use green_threads::context::ThreadContext;
use green_threads::machine::{Machine, BASE_ID};
use green_threads::runtime::Runtime;
use green_threads::task::{skip, Task, DEFAULT_STACK_SIZE, FRAME_SIZE};

const ENTRY: u64 = 0x1122_3344_5566_7788;
const SKIP: u64 = 0x0000_0000_0040_1000;
const GUARD: u64 = 0x0000_0000_0040_2000;

fn word_at(stack: &[u8], at: usize) -> u64 {
    let mut b = [0u8; 8];
    b.copy_from_slice(&stack[at..at + 8]);
    u64::from_le_bytes(b)
}

fn ids(m: &Machine) -> Vec<u64> {
    m.queue.iter().map(|t| t.id).collect()
}

fn plain_task(id: u64) -> Task {
    Task::new(id)
}

#[test]
fn context_starts_cleared() {
    let c = ThreadContext::new();
    assert_eq!(c, ThreadContext { rsp: 0, r15: 0, r14: 0, r13: 0, r12: 0, rbx: 0, rbp: 0 });
    assert_eq!(ThreadContext::default(), c);
}

#[test]
fn new_task_has_zeroed_stack() {
    let t = Task::new(9);
    assert_eq!(t.id, 9);
    assert_eq!(t.stack.len(), DEFAULT_STACK_SIZE);
    assert_eq!(t.stack.len(), 2 * 1024 * 1024);
    assert!(t.stack.iter().all(|b| *b == 0));
    assert_eq!(t.ctx, ThreadContext::new());
}

#[test]
fn launch_on_aligned_base_writes_frame_at_top() {
    let mut t = Task::new(1);
    t.launch(0x10_0000, ENTRY, SKIP, GUARD);
    let o = DEFAULT_STACK_SIZE - FRAME_SIZE;
    assert_eq!(o, 2_097_120);
    assert_eq!(&t.stack[o..o + 8], &[0x88, 0x77, 0x66, 0x55, 0x44, 0x33, 0x22, 0x11]);
    assert_eq!(word_at(&t.stack, o + 8), SKIP);
    assert_eq!(word_at(&t.stack, o + 16), GUARD);
    assert_eq!(t.ctx.rsp, 0x10_0000 + o as u64);
    assert_eq!(t.ctx.rsp % 16, 0);
}

#[test]
fn launch_on_unaligned_base_keeps_frame_aligned() {
    let mut t = Task::new(1);
    t.launch(0x10_0003, ENTRY, SKIP, GUARD);
    let o = DEFAULT_STACK_SIZE - 3 - FRAME_SIZE;
    assert_eq!(word_at(&t.stack, o), ENTRY);
    assert_eq!(word_at(&t.stack, o + 8), SKIP);
    assert_eq!(word_at(&t.stack, o + 16), GUARD);
    assert_eq!(t.ctx.rsp, 0x10_0003 + o as u64);
    assert_eq!(t.ctx.rsp % 16, 0);
}

#[test]
fn launch_touches_only_the_frame() {
    let mut t = Task::new(1);
    let n = t.stack.len();
    for (i, b) in t.stack.iter_mut().enumerate() {
        *b = (i % 251) as u8;
    }
    let before = t.stack.clone();
    t.launch(0x2000, ENTRY, SKIP, GUARD);
    let o = n - FRAME_SIZE;
    assert_eq!(&t.stack[..o], &before[..o]);
    assert_eq!(&t.stack[o + 24..], &before[o + 24..]);
    assert_eq!(t.ctx.r15, 0);
    assert_eq!(t.ctx.rbp, 0);
}

#[test]
fn with_entry_points_rsp_into_its_own_stack() {
    let t = Task::with_entry(5, ENTRY, SKIP, GUARD);
    let base = t.stack.as_ptr() as u64;
    assert_eq!(t.id, 5);
    assert_eq!(t.ctx.rsp % 16, 0);
    assert!(t.ctx.rsp > base);
    let o = (t.ctx.rsp - base) as usize;
    assert!(o + FRAME_SIZE <= DEFAULT_STACK_SIZE);
    assert!(o + FRAME_SIZE + 16 > DEFAULT_STACK_SIZE);
    assert_eq!(word_at(&t.stack, o), ENTRY);
    assert_eq!(word_at(&t.stack, o + 8), SKIP);
    assert_eq!(word_at(&t.stack, o + 16), GUARD);
    let written: usize = t.stack.iter().filter(|b| **b != 0).count();
    assert!(written <= 24);
}

#[test]
fn separate_tasks_have_separate_stacks() {
    let mut a = Task::with_entry(1, ENTRY, SKIP, GUARD);
    let b = Task::with_entry(2, ENTRY, SKIP, GUARD);
    let snapshot = b.stack.clone();
    for i in 0..1000 {
        a.stack[1000 + i] = 0xAB;
    }
    assert_eq!(b.stack, snapshot);
    assert_ne!(a.ctx.rsp, b.ctx.rsp);
}

#[test]
fn trampoline_skip_is_callable() {
    skip();
    let f: fn() = skip;
    f();
}

#[test]
fn machine_starts_with_base_task() {
    let m = Machine::new();
    assert!(m.queue.is_empty());
    assert_eq!(m.current.id, BASE_ID);
    assert!(m.retired.is_none());
}

#[test]
fn spawn_appends_in_order() {
    let mut m = Machine::new();
    m.spawn(1, ENTRY, SKIP, GUARD);
    m.spawn(2, ENTRY + 1, SKIP, GUARD);
    assert_eq!(ids(&m), vec![1, 2]);
    assert_eq!(m.current.id, BASE_ID);
    let last = m.queue.back().unwrap();
    let o = (last.ctx.rsp - last.stack.as_ptr() as u64) as usize;
    assert_eq!(word_at(&last.stack, o), ENTRY + 1);
}

#[test]
fn yield_on_empty_queue_reports_nothing_to_do() {
    let mut m = Machine::new();
    assert!(!m.t_yield());
    assert_eq!(m.current.id, BASE_ID);
    assert!(m.queue.is_empty());
}

#[test]
fn yields_run_tasks_round_robin() {
    let mut m = Machine::new();
    m.spawn(1, ENTRY, SKIP, GUARD);
    m.spawn(2, ENTRY, SKIP, GUARD);
    assert!(m.t_yield());
    assert_eq!(m.current.id, 1);
    assert_eq!(ids(&m), vec![2, 0]);
    assert!(m.t_yield());
    assert_eq!(m.current.id, 2);
    assert_eq!(ids(&m), vec![0, 1]);
    assert!(m.t_yield());
    assert_eq!(m.current.id, 0);
    assert!(m.t_yield());
    assert_eq!(m.current.id, 1);
    assert!(m.t_yield());
    assert_eq!(m.current.id, 2);
}

#[test]
fn consecutive_spawns_resume_in_order() {
    let mut m = Machine::new();
    m.spawn(1, ENTRY, SKIP, GUARD);
    m.spawn(2, ENTRY, SKIP, GUARD);
    m.spawn(3, ENTRY, SKIP, GUARD);
    let mut order = Vec::new();
    for _ in 0..6 {
        assert!(m.t_yield());
        order.push(m.current.id);
    }
    assert_eq!(order, vec![1, 2, 3, 0, 1, 2]);
}

#[test]
fn return_retires_running_task() {
    let mut m = Machine::new();
    m.spawn(1, ENTRY, SKIP, GUARD);
    m.spawn(2, ENTRY, SKIP, GUARD);
    assert!(m.t_yield());
    m.t_return();
    assert_eq!(m.current.id, 2);
    assert_eq!(m.retired.as_ref().unwrap().id, 1);
    assert_eq!(ids(&m), vec![0]);
    m.t_return();
    assert_eq!(m.current.id, 0);
    assert_eq!(m.retired.as_ref().unwrap().id, 2);
    assert!(m.queue.is_empty());
    assert!(!m.t_yield());
}

#[test]
fn steal_takes_head_only_from_surplus() {
    let mut w = Machine::new();
    let mut v = Machine::new();
    w.adopt(plain_task(10));
    v.adopt(plain_task(22));
    v.adopt(plain_task(21));
    assert!(w.steal_from(&mut v));
    assert_eq!(ids(&w), vec![21, 10]);
    assert_eq!(ids(&v), vec![22]);
    assert!(!w.steal_from(&mut v));
    assert_eq!(ids(&w), vec![21, 10]);
    assert_eq!(ids(&v), vec![22]);
}

#[test]
fn take_surplus_keeps_one_task() {
    let mut m = Machine::new();
    assert!(m.take_surplus().is_none());
    m.adopt(plain_task(1));
    assert!(m.take_surplus().is_none());
    m.adopt(plain_task(2));
    assert_eq!(m.take_surplus().unwrap().id, 2);
    assert_eq!(ids(&m), vec![1]);
}

#[test]
fn runtime_has_a_worker_per_cpu() {
    let rt = Runtime::new();
    assert!(!rt.machines.is_empty());
    assert_eq!(rt.current, 0);
    assert_eq!(rt.next_id, 1);
}

#[test]
fn spawn_spreads_round_robin() {
    let mut rt = Runtime::with_workers(3);
    for _ in 0..4 {
        rt.spawn(ENTRY, SKIP, GUARD);
    }
    assert_eq!(ids(&rt.machines[0]), vec![1, 4]);
    assert_eq!(ids(&rt.machines[1]), vec![2]);
    assert_eq!(ids(&rt.machines[2]), vec![3]);
    assert_eq!(rt.current, 1);
    assert_eq!(rt.next_id, 5);
}

#[test]
fn spawn_on_single_worker_keeps_cursor() {
    let mut rt = Runtime::with_workers(1);
    rt.spawn(ENTRY, SKIP, GUARD);
    rt.spawn(ENTRY, SKIP, GUARD);
    assert_eq!(rt.current, 0);
    assert_eq!(ids(&rt.machines[0]), vec![1, 2]);
}

#[test]
fn idle_worker_steals_from_busy_sibling() {
    let mut rt = Runtime::with_workers(2);
    for _ in 0..5 {
        rt.spawn(ENTRY, SKIP, GUARD);
    }
    // worker 0: [1, 3, 5]; worker 1: [2, 4]
    assert!(rt.t_yield(0));
    assert_eq!(ids(&rt.machines[0]), vec![3, 5, 0]);
    rt.t_return(0);
    rt.t_return(0);
    assert_eq!(ids(&rt.machines[0]), vec![0]);
    // only the base task is left queued on worker 0, and worker 1 has two
    // queued: its head is taken over and runs next.
    rt.t_return(0);
    assert_eq!(rt.machines[0].current.id, 2);
    assert_eq!(ids(&rt.machines[0]), vec![0]);
    assert_eq!(ids(&rt.machines[1]), vec![4]);
    assert_eq!(rt.machines[0].retired.as_ref().unwrap().id, 5);
}

#[test]
fn idle_worker_without_targets_stops() {
    let mut rt = Runtime::with_workers(3);
    for _ in 0..2 {
        rt.spawn(ENTRY, SKIP, GUARD);
    }
    assert!(rt.t_yield(0));
    assert_eq!(rt.machines[0].current.id, 1);
    rt.t_return(0);
    assert_eq!(rt.machines[0].current.id, BASE_ID);
    assert!(rt.machines[0].queue.is_empty());
    assert!(!rt.t_yield(0));
    assert_eq!(ids(&rt.machines[1]), vec![2]);
}

#[test]
fn yield_on_one_worker_leaves_others() {
    let mut rt = Runtime::with_workers(2);
    rt.spawn(ENTRY, SKIP, GUARD);
    rt.spawn(ENTRY, SKIP, GUARD);
    assert!(rt.t_yield(1));
    assert_eq!(rt.machines[1].current.id, 2);
    assert_eq!(rt.machines[0].current.id, BASE_ID);
    assert_eq!(ids(&rt.machines[0]), vec![1]);
}

#[test]
fn busy_worker_does_not_steal() {
    let mut rt = Runtime::with_workers(2);
    for _ in 0..6 {
        rt.spawn(ENTRY, SKIP, GUARD);
    }
    assert!(rt.t_yield(0));
    // worker 0: current 1, queue [3, 5, 0]
    rt.t_return(0);
    assert_eq!(rt.machines[0].current.id, 3);
    assert_eq!(ids(&rt.machines[0]), vec![5, 0]);
    assert_eq!(ids(&rt.machines[1]), vec![2, 4, 6]);
}
