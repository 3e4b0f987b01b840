use vstd::prelude::*;

use std::collections::VecDeque;
use vstd::seq_lib::lemma_multiset_commutative;

use crate::task::{Task, DEFAULT_STACK_SIZE};

verus! {

/// Id of the placeholder task that stands for a worker's own native stack.
pub const BASE_ID: u64 = 0;

/// One per-core scheduler: the tasks ready to run, in the order they will be
/// resumed, the task running now, and the last task that finished, kept
/// until the worker has switched away from its stack.
pub struct Machine {
    pub queue: VecDeque<Task>,
    pub current: Task,
    pub retired: Option<Task>,
}

/// The worker's `current` task and ready queue after one yield with a
/// non-empty queue: the head runs, the previous task goes to the back.
pub open spec fn yield_step(current: Task, queue: Seq<Task>) -> (Task, Seq<Task>) {
    (queue[0], queue.drop_first().push(current))
}

/// The worker's `current` task and queue after `k` yields with nothing else
/// happening on it; a yield with an empty queue changes nothing.
pub open spec fn after_yields(current: Task, queue: Seq<Task>, k: nat) -> (Task, Seq<Task>)
    decreases k,
{
    if k == 0 {
        (current, queue)
    } else {
        let (c, q) = after_yields(current, queue, (k - 1) as nat);
        if q.len() > 0 {
            yield_step(c, q)
        } else {
            (c, q)
        }
    }
}

/// Round robin: starting from running `current` with `queue` ready, the
/// `k`-th yield (`1 <= k <= queue.len()`) resumes the `k`-th queued task, and
/// leaves behind it the rest of the queue, then the tasks that ran before, in
/// the order they ran.
pub proof fn lemma_after_yields(current: Task, queue: Seq<Task>, k: nat)
    requires
        1 <= k <= queue.len(),
    ensures
        after_yields(current, queue, k).0 == queue[k - 1],
        after_yields(current, queue, k).1 == queue.subrange(k as int, queue.len() as int) + seq![
            current,
        ] + queue.subrange(0, k - 1),
    decreases k,
{
    reveal_with_fuel(after_yields, 2);
    if k == 1 {
        assert(queue.drop_first().push(current) =~= queue.subrange(1, queue.len() as int) + seq![
            current,
        ] + queue.subrange(0, 0));
    } else {
        lemma_after_yields(current, queue, (k - 1) as nat);
        let q = after_yields(current, queue, (k - 1) as nat).1;
        assert(q[0] == queue[k - 1]);
        assert(q.drop_first().push(queue[k - 2]) =~= queue.subrange(k as int, queue.len() as int)
            + seq![current] + queue.subrange(0, k - 1));
    }
}

/// Two tasks spawned one after the other on the same worker are resumed in
/// that order: with `queue` ready before the spawns, the yield numbered
/// `queue.len() + 1` resumes `a`, and the next one resumes `b`.
pub proof fn lemma_fifo_within_worker(current: Task, queue: Seq<Task>, a: Task, b: Task)
    ensures
        after_yields(current, queue.push(a).push(b), queue.len() + 1).0 == a,
        after_yields(current, queue.push(a).push(b), queue.len() + 2).0 == b,
{
    let q = queue.push(a).push(b);
    lemma_after_yields(current, q, queue.len() + 1);
    lemma_after_yields(current, q, queue.len() + 2);
}

/// A yield neither loses nor duplicates a task: the running task and the
/// queued ones are, together, the same before and after.
pub proof fn lemma_yield_keeps_tasks(current: Task, queue: Seq<Task>)
    requires
        queue.len() > 0,
    ensures
        (seq![yield_step(current, queue).0] + yield_step(current, queue).1).to_multiset() == (seq![
            current,
        ] + queue).to_multiset(),
{
    let after = seq![yield_step(current, queue).0] + yield_step(current, queue).1;
    assert(after =~= queue + seq![current]);
    lemma_multiset_commutative(queue, seq![current]);
    lemma_multiset_commutative(seq![current], queue);
    assert(after.to_multiset() =~= (seq![current] + queue).to_multiset());
}

/// The ids of a worker's tasks: the running one, then those queued.
pub open spec fn task_ids(current: Task, queue: Seq<Task>) -> Seq<u64> {
    (seq![current] + queue).map_values(|t: Task| t.id)
}

/// A finished task is never resumed: when the worker's task ids are
/// distinct, the task that `t_return` retires is neither running nor queued
/// afterwards.
pub proof fn lemma_finished_task_leaves(current: Task, queue: Seq<Task>)
    requires
        queue.len() > 0,
        task_ids(current, queue).no_duplicates(),
    ensures
        !task_ids(queue[0], queue.drop_first()).contains(current.id),
{
    let ids = task_ids(current, queue);
    assert(ids[0] == current.id);
    assert forall|i: int| 0 <= i < task_ids(queue[0], queue.drop_first()).len() implies task_ids(
        queue[0],
        queue.drop_first(),
    )[i] != current.id by {
        assert(task_ids(queue[0], queue.drop_first())[i] == ids[i + 1]);
    }
}

impl Machine {
    /// A worker as `Machine::new` makes it: only the base task, running,
    /// with nothing queued and nothing retired.
    pub open spec fn is_fresh(&self) -> bool {
        &&& self.queue@.len() == 0
        &&& self.current.id == BASE_ID
        &&& self.current.stack@ == Seq::new(DEFAULT_STACK_SIZE as nat, |i: int| 0u8)
        &&& self.current.ctx.is_zero()
        &&& self.retired.is_none()
    }

    /// A worker whose only task is the base task, running, with nothing queued.
    pub fn new() -> (r: Machine)
        ensures
            r.is_fresh(),
    {
        Machine { queue: VecDeque::new(), current: Task::new(BASE_ID), retired: None }
    }

    /// Queues, at the back, a new task with id `id` that starts at `entry`.
    pub fn spawn(&mut self, id: u64, entry: u64, skip: u64, guard: u64)
        ensures
            final(self).queue@.len() == old(self).queue@.len() + 1,
            final(self).queue@.drop_last() == old(self).queue@,
            final(self).queue@.last().id == id,
            final(self).queue@.last().launched(entry, skip, guard),
            final(self).current == old(self).current,
            final(self).retired == old(self).retired,
    {
        let t = Task::with_entry(id, entry, skip, guard);
        self.queue.push_back(t);
        assert(self.queue@.drop_last() =~= old(self).queue@);
    }

    /// The bookkeeping of a yield. With nothing queued, returns false and
    /// changes nothing: the caller keeps running. Otherwise the queue's head
    /// becomes `current` and the task that was running goes to the back of
    /// the queue; returns true, and the caller then switches from the back
    /// of the queue to `current`.
    pub fn t_yield(&mut self) -> (r: bool)
        ensures
            r == (old(self).queue@.len() > 0),
            !r ==> *final(self) == *old(self),
            r ==> (final(self).current, final(self).queue@) == yield_step(
                old(self).current,
                old(self).queue@,
            ),
            final(self).retired == old(self).retired,
    {
        if self.queue.len() == 0 {
            return false;
        }
        let mut next = self.queue.pop_front().unwrap();
        std::mem::swap(&mut next, &mut self.current);
        self.queue.push_back(next);
        true
    }

    /// Whether the worker should look for work on its siblings when its
    /// running task finishes: only one task, its fallback, is left queued.
    pub fn needs_work(&self) -> (r: bool)
        ensures
            r == (self.queue@.len() == 1),
    {
        self.queue.len() == 1
    }

    /// Takes the head of this worker's queue if the queue holds more than
    /// one task, so that a worker always keeps one task to fall back to.
    pub fn take_surplus(&mut self) -> (r: Option<Task>)
        ensures
            r.is_some() == (old(self).queue@.len() > 1),
            r.is_some() ==> r == Some(old(self).queue@[0]) && final(self).queue@
                == old(self).queue@.drop_first(),
            r.is_none() ==> final(self).queue@ == old(self).queue@,
            final(self).current == old(self).current,
            final(self).retired == old(self).retired,
    {
        if self.queue.len() > 1 {
            self.queue.pop_front()
        } else {
            None
        }
    }

    /// Puts `t` at the head of the queue, to run next.
    pub fn adopt(&mut self, t: Task)
        ensures
            final(self).queue@ == seq![t] + old(self).queue@,
            final(self).current == old(self).current,
            final(self).retired == old(self).retired,
    {
        self.queue.push_front(t);
    }

    /// One step of work stealing: when `victim` has more than one task
    /// queued, its head moves to the head of this worker's queue. Returns
    /// whether a task moved.
    pub fn steal_from(&mut self, victim: &mut Machine) -> (r: bool)
        ensures
            r == (old(victim).queue@.len() > 1),
            r ==> final(self).queue@ == seq![old(victim).queue@[0]] + old(self).queue@,
            r ==> final(victim).queue@ == old(victim).queue@.drop_first(),
            !r ==> final(self).queue@ == old(self).queue@,
            !r ==> final(victim).queue@ == old(victim).queue@,
            final(self).current == old(self).current,
            final(self).retired == old(self).retired,
            final(victim).current == old(victim).current,
            final(victim).retired == old(victim).retired,
    {
        match victim.take_surplus() {
            Some(t) => {
                self.adopt(t);
                true
            },
            None => false,
        }
    }

    /// The bookkeeping when the running task has finished: the queue's head
    /// becomes `current`, and the finished task is set aside in `retired`,
    /// never to be queued again. The task retired before it, whose stack is
    /// no longer in use, is released. The caller then switches from
    /// `retired` to `current`.
    pub fn t_return(&mut self)
        requires
            old(self).queue@.len() > 0,
        ensures
            final(self).current == old(self).queue@[0],
            final(self).queue@ == old(self).queue@.drop_first(),
            final(self).retired == Some(old(self).current),
    {
        let mut next = self.queue.pop_front().unwrap();
        std::mem::swap(&mut next, &mut self.current);
        self.retired = Some(next);
    }
}

} // verus!
