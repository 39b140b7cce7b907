//! Static-priority preemptive dispatch of run-to-completion tasks.
//!
//! Tasks become runnable when their scheduled instant is reached or when a
//! hardware source raises them. A runnable task starts only if its priority
//! lies above the current effective priority, the highest first and, among
//! equals, the earliest raised first.
use vstd::prelude::*;
use crate::ceiling::{LockManager, LockView, effective_priority, preempts, stack_wf, lemma_ceiling_excludes_sharers};
use crate::queue::{
    ReadyQueue, ScheduledEvent, any_due, due_order, is_next_due, next_due_index, still_waiting,
    lemma_next_due_unique, lemma_remove_due_keeps_waiting, lemma_none_due_keeps_all,
};

verus! {

/// Abstract state of the dispatcher.
pub struct DispatchView {
    /// Static priority of each task, by task number.
    pub priorities: Seq<u8>,
    /// Runnable tasks not started yet, in the order they became runnable.
    pub pending: Seq<usize>,
    /// Started tasks, the one executing last; the others are preempted.
    pub running: Seq<usize>,
    /// Stack depth at which each running task started.
    pub frames: Seq<usize>,
    /// Raised priorities of running tasks and held locks.
    pub stack: LockView,
}

/// The tasks of a sequence of events.
pub open spec fn tasks_of(s: Seq<ScheduledEvent>) -> Seq<usize> {
    s.map_values(|e: ScheduledEvent| e.task)
}

pub open spec fn prio_of(v: DispatchView, task: usize) -> u8 {
    v.priorities[task as int]
}

pub open spec fn dispatch_wf(v: DispatchView) -> bool {
    &&& stack_wf(v.stack)
    &&& v.stack.base == 0
    &&& forall|t: int| 0 <= t < v.priorities.len() ==> 1 <= #[trigger] v.priorities[t] <= v.stack.max_priority
    &&& forall|k: int| 0 <= k < v.pending.len() ==> #[trigger] v.pending[k] < v.priorities.len()
    &&& forall|k: int| 0 <= k < v.running.len() ==> #[trigger] v.running[k] < v.priorities.len()
    &&& v.frames.len() == v.running.len()
    &&& forall|k: int| 0 <= k < v.frames.len() ==> #[trigger] v.frames[k] < v.stack.levels.len()
    &&& forall|i: int, j: int| 0 <= i < j < v.frames.len() ==> v.frames[i] < v.frames[j]
}

/// `k` is the pending entry that starts next: it may cut in, no pending task
/// has a higher priority, and none raised before it has the same priority.
pub open spec fn is_next_runnable(v: DispatchView, k: int) -> bool {
    &&& 0 <= k < v.pending.len()
    &&& preempts(v.stack, prio_of(v, v.pending[k]))
    &&& forall|j: int| 0 <= j < v.pending.len() ==> prio_of(v, #[trigger] v.pending[j]) <= prio_of(v, v.pending[k])
    &&& forall|j: int| 0 <= j < k ==> prio_of(v, #[trigger] v.pending[j]) < prio_of(v, v.pending[k])
}

/// Some pending task may cut in now.
pub open spec fn any_runnable(v: DispatchView) -> bool {
    exists|j: int| 0 <= j < v.pending.len() && preempts(v.stack, prio_of(v, #[trigger] v.pending[j]))
}

/// Run-to-completion dispatcher over a fixed task set.
pub struct Dispatcher {
    priorities: Vec<u8>,
    pending: Vec<usize>,
    running: Vec<usize>,
    frames: Vec<usize>,
    stack: LockManager,
}

impl Dispatcher {
    pub closed spec fn view(&self) -> DispatchView {
        DispatchView {
            priorities: self.priorities@,
            pending: self.pending@,
            running: self.running@,
            frames: self.frames@,
            stack: self.stack@,
        }
    }

    pub open spec fn wf(&self) -> bool {
        dispatch_wf(self@)
    }

    /// An idle dispatcher for tasks with the given static priorities, each
    /// between 1 and `max_priority`.
    pub fn new(priorities: Vec<u8>, max_priority: u8) -> (r: Self)
        requires
            forall|t: int| 0 <= t < priorities@.len() ==> 1 <= #[trigger] priorities@[t] <= max_priority,
        ensures
            r.wf(),
            r@.priorities == priorities@,
            r@.pending.len() == 0,
            r@.running.len() == 0,
            r@.stack == (LockView { base: 0, max_priority, levels: Seq::empty() }),
    {
        Dispatcher {
            priorities,
            pending: Vec::new(),
            running: Vec::new(),
            frames: Vec::new(),
            stack: LockManager::new(0, max_priority),
        }
    }

    /// The priority the processor runs at: 0 when idle.
    pub fn effective(&self) -> (r: u8)
        ensures
            r == effective_priority(self@.stack),
    {
        self.stack.effective()
    }

    /// The task executing now, if any.
    pub fn current(&self) -> (r: Option<usize>)
        ensures
            self@.running.len() == 0 ==> r is None,
            self@.running.len() > 0 ==> r == Some(self@.running.last()),
    {
        if self.running.len() == 0 {
            None
        } else {
            Some(self.running[self.running.len() - 1])
        }
    }

    /// A hardware source makes `task` runnable.
    pub fn raise(&mut self, task: usize)
        requires
            old(self).wf(),
            task < old(self)@.priorities.len(),
        ensures
            final(self).wf(),
            final(self)@ == (DispatchView { pending: old(self)@.pending.push(task), ..old(self)@ }),
    {
        self.pending.push(task);
    }

    /// Moves every event of `queue` that is due at `now` to the runnable
    /// tasks, in the order the queue hands them out; the events not due yet
    /// stay, in their order.
    pub fn release_due(&mut self, queue: &mut ReadyQueue, now: u32)
        requires
            old(self).wf(),
            old(queue).wf(),
            forall|k: int| 0 <= k < old(queue)@.len() ==> #[trigger] old(queue)@[k].task < old(self)@.priorities.len(),
        ensures
            final(self).wf(),
            final(queue).wf(),
            final(queue).capacity_spec() == old(queue).capacity_spec(),
            final(queue)@ == old(queue)@.filter(still_waiting(now)),
            final(self)@ == (DispatchView {
                pending: old(self)@.pending + tasks_of(due_order(old(queue)@, now)),
                ..old(self)@
            }),
    {
        loop
            invariant
                self.wf(),
                queue.wf(),
                queue.capacity_spec() == old(queue).capacity_spec(),
                forall|k: int| 0 <= k < queue@.len() ==> #[trigger] queue@[k].task < self@.priorities.len(),
                self@ == (DispatchView { pending: self@.pending, ..old(self)@ }),
                self@.pending + tasks_of(due_order(queue@, now)) == old(self)@.pending + tasks_of(
                    due_order(old(queue)@, now),
                ),
                queue@.filter(still_waiting(now)) == old(queue)@.filter(still_waiting(now)),
            ensures
                !any_due(queue@, now),
                self@.pending == old(self)@.pending + tasks_of(due_order(old(queue)@, now)),
            decreases queue@.len(),
        {
            let ghost q = queue@;
            let ghost pend = self@.pending;
            match queue.pop_due(now) {
                None => {
                    proof {
                        assert(due_order(q, now) == Seq::<ScheduledEvent>::empty());
                        assert(tasks_of(Seq::<ScheduledEvent>::empty()) =~= Seq::<usize>::empty());
                        assert(pend + Seq::<usize>::empty() =~= pend);
                    }
                    break;
                },
                Some(e) => {
                    proof {
                        let k = choose|k: int| is_next_due(q, now, k) && e == q[k] && queue@ == q.remove(k);
                        lemma_next_due_unique(q, now, k, next_due_index(q, now));
                        assert(due_order(q, now) == seq![q[k]] + due_order(q.remove(k), now));
                        assert(tasks_of(seq![q[k]] + due_order(q.remove(k), now)) =~= seq![e.task]
                            + tasks_of(due_order(q.remove(k), now)));
                        assert(pend.push(e.task) + tasks_of(due_order(queue@, now)) =~= pend + (
                        seq![e.task] + tasks_of(due_order(queue@, now))));
                        lemma_remove_due_keeps_waiting(q, now, k);
                        assert(e.task < self@.priorities.len());
                        assert forall|j: int| 0 <= j < queue@.len() implies #[trigger] queue@[j].task < self@.priorities.len() by {
                            if j < k {
                                assert(queue@[j] == q[j]);
                            } else {
                                assert(queue@[j] == q[j + 1]);
                            }
                        }
                    }
                    self.pending.push(e.task);
                },
            }
        }
        proof {
            lemma_none_due_keeps_all(queue@, now);
        }
    }

    /// The pending entry that would start now, if any may cut in.
    pub fn next_runnable(&self) -> (r: Option<usize>)
        requires
            self.wf(),
        ensures
            r is None <==> !any_runnable(self@),
            r matches Some(k) ==> is_next_runnable(self@, k as int),
    {
        let n = self.pending.len();
        let mut best: Option<usize> = None;
        let mut i: usize = 0;
        while i < n
            invariant
                self.wf(),
                n == self@.pending.len(),
                0 <= i <= n,
                best is None ==> i == 0,
                best matches Some(b) ==> {
                    &&& b < i
                    &&& forall|j: int| 0 <= j < i ==> prio_of(self@, #[trigger] self@.pending[j]) <= prio_of(self@, self@.pending[b as int])
                    &&& forall|j: int| 0 <= j < b ==> prio_of(self@, #[trigger] self@.pending[j]) < prio_of(self@, self@.pending[b as int])
                },
            decreases n - i,
        {
            let p = self.priorities[self.pending[i]];
            match best {
                None => {
                    best = Some(i);
                },
                Some(b) => {
                    if p > self.priorities[self.pending[b]] {
                        best = Some(i);
                    }
                },
            }
            i += 1;
        }
        match best {
            None => {
                proof {
                    assert(n == 0);
                }
                None
            },
            Some(b) => {
                if self.stack.can_preempt(self.priorities[self.pending[b]]) {
                    Some(b)
                } else {
                    proof {
                        assert forall|j: int| 0 <= j < n implies !preempts(self@.stack, prio_of(self@, #[trigger] self@.pending[j])) by {}
                    }
                    None
                }
            },
        }
    }

    /// Starts the pending task that may cut in, if there is one; it runs at its
    /// static priority until it completes or is preempted.
    pub fn dispatch(&mut self) -> (r: Option<usize>)
        requires
            old(self).wf(),
        ensures
            final(self).wf(),
            r is None <==> !any_runnable(old(self)@),
            r is None ==> final(self)@ == old(self)@,
            r matches Some(t) ==> exists|k: int|
                {
                    &&& is_next_runnable(old(self)@, k)
                    &&& t == old(self)@.pending[k]
                    &&& final(self)@.pending == old(self)@.pending.remove(k)
                    &&& final(self)@.running == old(self)@.running.push(t)
                    &&& final(self)@.frames == old(self)@.frames.push(old(self)@.stack.levels.len() as usize)
                    &&& final(self)@.stack.levels == old(self)@.stack.levels.push(prio_of(old(self)@, t))
                    &&& final(self)@.stack.base == old(self)@.stack.base
                    &&& final(self)@.stack.max_priority == old(self)@.stack.max_priority
                    &&& final(self)@.priorities == old(self)@.priorities
                },
    {
        match self.next_runnable() {
            None => None,
            Some(k) => {
                let t = self.pending.remove(k);
                let p = self.priorities[t];
                let depth = self.stack.depth();
                self.frames.push(depth);
                self.running.push(t);
                self.stack.enter(p);
                proof {
                    assert(is_next_runnable(old(self)@, k as int));
                    assert forall|j: int| 0 <= j < self@.pending.len() implies #[trigger] self@.pending[j] < self@.priorities.len() by {
                        if j < k {
                            assert(self@.pending[j] == old(self)@.pending[j]);
                        } else {
                            assert(self@.pending[j] == old(self)@.pending[j + 1]);
                        }
                    }
                    assert forall|j: int| 0 <= j < self@.frames.len() implies #[trigger] self@.frames[j] < self@.stack.levels.len() by {
                        if j < self@.frames.len() - 1 {
                            assert(self@.frames[j] == old(self)@.frames[j]);
                        }
                    }
                }
                Some(t)
            },
        }
    }

    /// The executing task locks the cells whose ceilings are listed.
    pub fn acquire(&mut self, ceilings: &[u8])
        requires
            old(self).wf(),
            old(self)@.running.len() > 0,
            forall|i: int| 0 <= i < ceilings@.len() ==> #[trigger] ceilings@[i] <= old(self)@.stack.max_priority,
        ensures
            final(self).wf(),
            final(self)@ == (DispatchView { stack: final(self)@.stack, ..old(self)@ }),
            final(self)@.stack == (LockView {
                levels: old(self)@.stack.levels.push(
                    crate::ceiling::combined_ceiling(effective_priority(old(self)@.stack), ceilings@),
                ),
                ..old(self)@.stack
            }),
    {
        self.stack.acquire(ceilings);
        proof {
            assert forall|j: int| 0 <= j < self@.frames.len() implies #[trigger] self@.frames[j] < self@.stack.levels.len() by {}
        }
    }

    /// The executing task releases its innermost lock.
    pub fn release(&mut self)
        requires
            old(self).wf(),
            old(self)@.running.len() > 0,
            old(self)@.stack.levels.len() > old(self)@.frames.last() + 1,
        ensures
            final(self).wf(),
            final(self)@ == (DispatchView { stack: final(self)@.stack, ..old(self)@ }),
            final(self)@.stack == (LockView { levels: old(self)@.stack.levels.drop_last(), ..old(self)@.stack }),
    {
        self.stack.release();
    }

    /// The executing task runs to its end, with all its locks released; the
    /// task it preempted, if any, resumes.
    pub fn complete(&mut self) -> (r: usize)
        requires
            old(self).wf(),
            old(self)@.running.len() > 0,
            old(self)@.stack.levels.len() == old(self)@.frames.last() + 1,
        ensures
            final(self).wf(),
            r == old(self)@.running.last(),
            final(self)@.running == old(self)@.running.drop_last(),
            final(self)@.frames == old(self)@.frames.drop_last(),
            final(self)@.pending == old(self)@.pending,
            final(self)@.stack == (LockView { levels: old(self)@.stack.levels.drop_last(), ..old(self)@.stack }),
    {
        self.stack.release();
        self.frames.pop();
        let r = self.running.pop();
        proof {
            assert forall|j: int| 0 <= j < self@.frames.len() implies #[trigger] self@.frames[j] < self@.stack.levels.len() by {
                assert(self@.frames[j] == old(self)@.frames[j]);
                assert(old(self)@.frames[j] < old(self)@.frames[old(self)@.frames.len() - 1]);
            }
            assert(self@.pending == old(self)@.pending);
            assert(self@.priorities == old(self)@.priorities);
            assert forall|j: int| 0 <= j < self@.running.len() implies #[trigger] self@.running[j] < self@.priorities.len() by {
                assert(self@.running[j] == old(self)@.running[j]);
            }
        }
        match r {
            Some(t) => t,
            None => 0,
        }
    }
}

/// While a level at or above a cell's ceiling is held, the dispatcher never
/// starts a task whose priority is at most that ceiling: no task that shares
/// the cell can observe the holder's update half done.
pub proof fn lemma_lock_holder_not_preempted_by_sharer(v: DispatchView, i: int, ceiling: u8, k: int)
    requires
        dispatch_wf(v),
        0 <= i < v.stack.levels.len(),
        v.stack.levels[i] >= ceiling,
        0 <= k < v.pending.len(),
        prio_of(v, v.pending[k]) <= ceiling,
    ensures
        !is_next_runnable(v, k),
{
    lemma_ceiling_excludes_sharers(v.stack, i, ceiling, prio_of(v, v.pending[k]));
}

} // verus!
