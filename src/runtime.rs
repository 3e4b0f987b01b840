use vstd::prelude::*;

use crate::machine::{yield_step, Machine, BASE_ID};
use crate::task::Task;

verus! {

/// All the workers, one per core, and the round-robin cursor that picks the
/// worker of the next spawned task.
pub struct Runtime {
    pub current: usize,
    pub machines: Vec<Machine>,
    pub next_id: u64,
}

/// The tasks that a finished task's worker `w` takes over, in the order they
/// end up at the head of its queue, when it scans workers `0 .. i`: the head
/// of each other worker with more than one task queued, the last one taken
/// standing first.
pub open spec fn stolen(ms: Seq<Machine>, w: int, i: nat) -> Seq<Task>
    decreases i,
{
    if i == 0 {
        Seq::empty()
    } else {
        let j = i - 1;
        let prev = stolen(ms, w, (i - 1) as nat);
        if j != w && ms[j].queue@.len() > 1 {
            seq![ms[j].queue@[0]] + prev
        } else {
            prev
        }
    }
}

/// Scanning workers `0 .. i`, of which `v` (if below `i`) is the only one
/// other than `w` with more than one task queued, takes exactly `v`'s head.
proof fn lemma_stolen_only(ms: Seq<Machine>, w: int, v: int, i: nat)
    requires
        i <= ms.len(),
        0 <= v < ms.len(),
        forall|u: int| 0 <= u < ms.len() && u != w && u != v ==> #[trigger] ms[u].queue@.len() <= 1,
    ensures
        v < i && v != w && ms[v].queue@.len() > 1 ==> stolen(ms, w, i) == seq![ms[v].queue@[0]],
        !(v < i && v != w && ms[v].queue@.len() > 1) ==> stolen(ms, w, i) == Seq::<Task>::empty(),
    decreases i,
{
    if i > 0 {
        let j = i - 1;
        lemma_stolen_only(ms, w, v, j as nat);
        if j == v && v != w && ms[v].queue@.len() > 1 {
            assert(seq![ms[v].queue@[0]] + Seq::<Task>::empty() =~= seq![ms[v].queue@[0]]);
        } else if j != w && j != v {
            assert(ms[j].queue@.len() <= 1);
        }
    }
}

/// Work stealing: when the worker `w` whose task finished has only one task
/// queued and `v` is the only other worker with two or more queued, `w`
/// takes `v`'s head, and that task is the one `w` runs next.
pub proof fn lemma_steal_from_busy_sibling(ms: Seq<Machine>, w: int, v: int)
    requires
        0 <= w < ms.len(),
        0 <= v < ms.len(),
        v != w,
        ms[w].queue@.len() == 1,
        ms[v].queue@.len() >= 2,
        forall|u: int| 0 <= u < ms.len() && u != w && u != v ==> #[trigger] ms[u].queue@.len() <= 1,
    ensures
        stolen(ms, w, ms.len()) == seq![ms[v].queue@[0]],
        (stolen(ms, w, ms.len()) + ms[w].queue@)[0] == ms[v].queue@[0],
{
    lemma_stolen_only(ms, w, v, ms.len());
}

/// Idle shutdown: when the worker `w` whose task finished has only one task
/// queued and no other worker has two or more, nothing is taken, its queue
/// is left empty, and its next yield reports that there is nothing to do.
pub proof fn lemma_idle_worker_stops(ms: Seq<Machine>, w: int)
    requires
        0 <= w < ms.len(),
        ms[w].queue@.len() == 1,
        forall|u: int| 0 <= u < ms.len() && u != w ==> #[trigger] ms[u].queue@.len() <= 1,
    ensures
        stolen(ms, w, ms.len()) == Seq::<Task>::empty(),
        (stolen(ms, w, ms.len()) + ms[w].queue@).drop_first().len() == 0,
{
    lemma_stolen_only(ms, w, w, ms.len());
    assert(Seq::<Task>::empty() + ms[w].queue@ =~= ms[w].queue@);
}

/// A sibling `m` after worker `w` scanned it: if it had more than one task
/// queued it lost its head, else it is unchanged.
pub open spec fn scanned(m: Machine, old_m: Machine) -> bool {
    &&& m.current == old_m.current
    &&& m.retired == old_m.retired
    &&& if old_m.queue@.len() > 1 {
        m.queue@ == old_m.queue@.drop_first()
    } else {
        m.queue@ == old_m.queue@
    }
}

/// Relies on `num_cpus::get`: the number of CPUs this process may use,
/// which the crate documents to be at least one.
#[verifier::external_body]
fn cpu_count() -> (r: usize)
    ensures
        r >= 1,
{
    num_cpus::get()
}

impl Runtime {
    /// The runtime's invariant: at least one worker, and the cursor on one of them.
    pub open spec fn wf(&self) -> bool {
        &&& self.machines@.len() > 0
        &&& self.current < self.machines@.len()
        &&& self.next_id > BASE_ID
    }

    /// A runtime with one worker per CPU available to this process.
    pub fn new() -> (r: Runtime)
        ensures
            r.wf(),
            r.current == 0,
            r.next_id == BASE_ID + 1,
            forall|i: int| 0 <= i < r.machines@.len() ==> (#[trigger] r.machines@[i]).is_fresh(),
    {
        Runtime::with_workers(cpu_count())
    }

    /// A runtime with `n` fresh workers, the cursor on the first.
    pub fn with_workers(n: usize) -> (r: Runtime)
        requires
            n >= 1,
        ensures
            r.wf(),
            r.machines@.len() == n,
            r.current == 0,
            r.next_id == BASE_ID + 1,
            forall|i: int| 0 <= i < r.machines@.len() ==> (#[trigger] r.machines@[i]).is_fresh(),
    {
        let mut machines: Vec<Machine> = Vec::new();
        let mut i: usize = 0;
        while i < n
            invariant
                i <= n,
                machines@.len() == i,
                forall|k: int| 0 <= k < machines@.len() ==> (#[trigger] machines@[k]).is_fresh(),
            decreases n - i,
        {
            machines.push(Machine::new());
            i = i + 1;
        }
        Runtime { current: 0, machines, next_id: BASE_ID + 1 }
    }

    /// Spawns a task that starts at `entry` on the worker under the cursor,
    /// gives it the next id, and moves the cursor on to the next worker,
    /// wrapping after the last.
    pub fn spawn(&mut self, entry: u64, skip: u64, guard: u64)
        requires
            old(self).wf(),
            old(self).next_id < u64::MAX,
        ensures
            final(self).wf(),
            final(self).machines@.len() == old(self).machines@.len(),
            final(self).next_id == old(self).next_id + 1,
            final(self).current == (old(self).current + 1) % (old(self).machines@.len() as int),
            ({
                let c = old(self).current as int;
                let m = final(self).machines@[c];
                let m0 = old(self).machines@[c];
                &&& m.queue@.drop_last() == m0.queue@
                &&& m.queue@.len() == m0.queue@.len() + 1
                &&& m.queue@.last().id == old(self).next_id
                &&& m.queue@.last().launched(entry, skip, guard)
                &&& m.current == m0.current
                &&& m.retired == m0.retired
            }),
            forall|i: int|
                0 <= i < old(self).machines@.len() && i != old(self).current
                    ==> final(self).machines@[i] == old(self).machines@[i],
    {
        let c = self.current;
        let n = self.machines.len();
        let id = self.next_id;
        self.machines[c].spawn(id, entry, skip, guard);
        assert(self.machines@.len() == n);
        self.next_id = id + 1;
        if c + 1 == n {
            self.current = 0;
            assert((c + 1) % (n as int) == 0) by (nonlinear_arith)
                requires
                    c + 1 == n,
                    n > 0,
            ;
        } else {
            self.current = c + 1;
            assert((c + 1) % (n as int) == c + 1) by (nonlinear_arith)
                requires
                    c + 1 < n,
            ;
        }
    }

    /// A yield on worker `worker`: `Machine::t_yield` on that worker.
    pub fn t_yield(&mut self, worker: usize) -> (r: bool)
        requires
            worker < old(self).machines@.len(),
        ensures
            ({
                let m0 = old(self).machines@[worker as int];
                let m = final(self).machines@[worker as int];
                &&& r == (m0.queue@.len() > 0)
                &&& !r ==> m == m0
                &&& r ==> (m.current, m.queue@) == yield_step(m0.current, m0.queue@)
                &&& m.retired == m0.retired
            }),
            final(self).machines@.len() == old(self).machines@.len(),
            forall|i: int|
                0 <= i < old(self).machines@.len() && i != worker
                    ==> final(self).machines@[i] == old(self).machines@[i],
            final(self).current == old(self).current,
            final(self).next_id == old(self).next_id,
    {
        let n = self.machines.len();
        let r = self.machines[worker].t_yield();
        assert(self.machines@.len() == n);
        r
    }

    /// The end of the running task on worker `worker`. If that worker has
    /// only one task queued, it first scans the other workers in order and
    /// takes the head of each that has more than one queued, each taken task
    /// going to the head of its own queue. Then `Machine::t_return` on it.
    pub fn t_return(&mut self, worker: usize)
        requires
            worker < old(self).machines@.len(),
            old(self).machines@[worker as int].queue@.len() > 0,
        ensures
            ({
                let ms = old(self).machines@;
                let w = worker as int;
                let stealing = ms[w].queue@.len() == 1;
                let q = if stealing {
                    stolen(ms, w, ms.len()) + ms[w].queue@
                } else {
                    ms[w].queue@
                };
                &&& final(self).machines@.len() == ms.len()
                &&& forall|i: int|
                    0 <= i < ms.len() && i != w ==> if stealing {
                        scanned(#[trigger] final(self).machines@[i], ms[i])
                    } else {
                        final(self).machines@[i] == ms[i]
                    }
                &&& final(self).machines@[w].current == q[0]
                &&& final(self).machines@[w].queue@ == q.drop_first()
                &&& final(self).machines@[w].retired == Some(ms[w].current)
            }),
            final(self).current == old(self).current,
            final(self).next_id == old(self).next_id,
    {
        let ghost ms = self.machines@;
        let ghost w = worker as int;
        let n = self.machines.len();
        if self.machines[worker].needs_work() {
            let mut i: usize = 0;
            while i < n
                invariant
                    self.machines@.len() == n,
                    n == ms.len(),
                    w == worker,
                    worker < n,
                    i <= n,
                    forall|k: int|
                        0 <= k < i && k != w ==> scanned(#[trigger] self.machines@[k], ms[k]),
                    forall|k: int| i <= k < n && k != w ==> #[trigger] self.machines@[k] == ms[k],
                    self.machines@[w].queue@ == stolen(ms, w, i as nat) + ms[w].queue@,
                    self.machines@[w].current == ms[w].current,
                    self.machines@[w].retired == ms[w].retired,
                    self.current == old(self).current,
                    self.next_id == old(self).next_id,
                decreases n - i,
            {
                if i != worker {
                    let taken = self.machines[i].take_surplus();
                    match taken {
                        Some(t) => {
                            self.machines[worker].adopt(t);
                        },
                        None => {},
                    }
                }
                assert(stolen(ms, w, (i + 1) as nat) == if i != w && ms[i as int].queue@.len()
                    > 1 {
                    seq![ms[i as int].queue@[0]] + stolen(ms, w, i as nat)
                } else {
                    stolen(ms, w, i as nat)
                });
                i = i + 1;
            }
        }
        self.machines[worker].t_return();
    }
}

} // verus!
