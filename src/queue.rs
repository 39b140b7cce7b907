//! Deadline-ordered ready queue of scheduled task invocations.
use vstd::prelude::*;
use crate::clock::{distance, has_reached, is_before, reached, elapsed};

verus! {

/// A pending invocation of `task`, due at the instant `due`.
#[derive(Clone, Copy, Debug, PartialEq, Eq, Structural)]
pub struct ScheduledEvent {
    pub task: usize,
    pub due: u32,
}

/// The queue holds no room for another event.
#[derive(Clone, Copy, Debug, PartialEq, Eq, Structural)]
pub struct QueueFull;

/// How long `e` has been due at `now`.
pub open spec fn overdue_by(e: ScheduledEvent, now: u32) -> int {
    distance(e.due, now)
}

/// `k` is the event that `pop_due` hands out at `now`: it is due, no due event
/// has waited longer, and among those that have waited as long it was
/// scheduled first.
pub open spec fn is_next_due(q: Seq<ScheduledEvent>, now: u32, k: int) -> bool {
    &&& 0 <= k < q.len()
    &&& has_reached(q[k].due, now)
    &&& forall|j: int|
        0 <= j < q.len() && has_reached(#[trigger] q[j].due, now) ==> overdue_by(q[j], now)
            <= overdue_by(q[k], now)
    &&& forall|j: int|
        0 <= j < k && has_reached(#[trigger] q[j].due, now) ==> overdue_by(q[j], now)
            < overdue_by(q[k], now)
}

/// Some event in `q` is due at `now`.
pub open spec fn any_due(q: Seq<ScheduledEvent>, now: u32) -> bool {
    exists|j: int| 0 <= j < q.len() && has_reached(#[trigger] q[j].due, now)
}

/// Pending events in the order they were scheduled, with a fixed capacity.
pub struct ReadyQueue {
    events: Vec<ScheduledEvent>,
    capacity: usize,
}

impl ReadyQueue {
    pub closed spec fn view(&self) -> Seq<ScheduledEvent> {
        self.events@
    }

    pub closed spec fn capacity_spec(&self) -> nat {
        self.capacity as nat
    }

    pub closed spec fn wf(&self) -> bool {
        self.events@.len() <= self.capacity
    }

    /// An empty queue that holds at most `capacity` events.
    pub fn new(capacity: usize) -> (r: Self)
        ensures
            r.wf(),
            r@ == Seq::<ScheduledEvent>::empty(),
            r.capacity_spec() == capacity,
    {
        ReadyQueue { events: Vec::new(), capacity }
    }

    pub fn len(&self) -> (r: usize)
        requires
            self.wf(),
        ensures
            r == self@.len(),
    {
        self.events.len()
    }

    pub fn capacity(&self) -> (r: usize)
        ensures
            r == self.capacity_spec(),
    {
        self.capacity
    }

    /// Adds an invocation of `task` due at `due`; fails when the queue is full.
    pub fn schedule(&mut self, task: usize, due: u32) -> (r: Result<(), QueueFull>)
        requires
            old(self).wf(),
        ensures
            final(self).wf(),
            final(self).capacity_spec() == old(self).capacity_spec(),
            old(self)@.len() < old(self).capacity_spec() ==> r is Ok && final(self)@ == old(
                self,
            )@.push(ScheduledEvent { task, due }),
            old(self)@.len() >= old(self).capacity_spec() ==> r is Err && final(self)@ == old(
                self,
            )@,
    {
        if self.events.len() < self.capacity {
            self.events.push(ScheduledEvent { task, due });
            Ok(())
        } else {
            Err(QueueFull)
        }
    }

    /// Removes and returns the event that has been due the longest at `now`,
    /// the earliest scheduled one among equals; `None` when nothing is due.
    pub fn pop_due(&mut self, now: u32) -> (r: Option<ScheduledEvent>)
        requires
            old(self).wf(),
        ensures
            final(self).wf(),
            final(self).capacity_spec() == old(self).capacity_spec(),
            r is None <==> !any_due(old(self)@, now),
            r is None ==> final(self)@ == old(self)@,
            r is Some ==> exists|k: int|
                is_next_due(old(self)@, now, k) && r->0 == old(self)@[k] && final(self)@ == old(
                    self,
                )@.remove(k),
    {
        let n = self.events.len();
        let mut best: Option<usize> = None;
        let mut best_age: u32 = 0;
        let mut i: usize = 0;
        while i < n
            invariant
                n == self.events@.len(),
                0 <= i <= n,
                best is None ==> forall|j: int| 0 <= j < i ==> !has_reached(#[trigger] self.events@[j].due, now),
                best matches Some(b) ==> {
                    &&& b < i
                    &&& has_reached(self.events@[b as int].due, now)
                    &&& best_age == overdue_by(self.events@[b as int], now)
                    &&& forall|j: int|
                        0 <= j < i && has_reached(#[trigger] self.events@[j].due, now)
                            ==> overdue_by(self.events@[j], now) <= best_age
                    &&& forall|j: int|
                        0 <= j < b && has_reached(#[trigger] self.events@[j].due, now)
                            ==> overdue_by(self.events@[j], now) < best_age
                },
            decreases n - i,
        {
            let e = self.events[i];
            if reached(e.due, now) {
                let age = elapsed(e.due, now);
                match best {
                    None => {
                        best = Some(i);
                        best_age = age;
                    },
                    Some(_) => {
                        if age > best_age {
                            best = Some(i);
                            best_age = age;
                        }
                    },
                }
            }
            i += 1;
        }
        match best {
            None => {
                proof {
                    assert(!any_due(self.events@, now));
                }
                None
            },
            Some(b) => {
                proof {
                    assert(is_next_due(self.events@, now, b as int));
                }
                let e = self.events.remove(b);
                proof {
                    assert(is_next_due(old(self)@, now, b as int) && e == old(self)@[b as int]
                        && self.events@ == old(self)@.remove(b as int));
                }
                Some(e)
            },
        }
    }
}

/// An event handed out by `pop_due` is never early, and draining the queue at
/// one instant hands out events in non-decreasing order of their due instants,
/// also across a wrap of the counter.
pub proof fn lemma_pop_due_order(q: Seq<ScheduledEvent>, now: u32, k1: int, k2: int)
    requires
        is_next_due(q, now, k1),
        is_next_due(q.remove(k1), now, k2),
    ensures
        has_reached(q[k1].due, now),
        has_reached(q.remove(k1)[k2].due, now),
        !is_before(q.remove(k1)[k2].due, q[k1].due),
{
    let r = q.remove(k1);
    let j = if k2 < k1 { k2 } else { k2 + 1 };
    assert(r[k2] == q[j]);
    assert(has_reached(q[j].due, now));
    assert(overdue_by(q[j], now) <= overdue_by(q[k1], now));
}

/// The index `pop_due` hands out at `now`, when some event is due.
pub open spec fn next_due_index(q: Seq<ScheduledEvent>, now: u32) -> int {
    choose|k: int| is_next_due(q, now, k)
}

/// The events that popping at `now` until nothing is due hands out, in order.
pub open spec fn due_order(q: Seq<ScheduledEvent>, now: u32) -> Seq<ScheduledEvent>
    decreases q.len(),
{
    let k = next_due_index(q, now);
    if any_due(q, now) && 0 <= k < q.len() {
        seq![q[k]] + due_order(q.remove(k), now)
    } else {
        Seq::empty()
    }
}

/// Test for an event that is not due at `now`.
pub open spec fn still_waiting(now: u32) -> spec_fn(ScheduledEvent) -> bool {
    |e: ScheduledEvent| !has_reached(e.due, now)
}

/// At most one index is the next due one.
pub proof fn lemma_next_due_unique(q: Seq<ScheduledEvent>, now: u32, k1: int, k2: int)
    requires
        is_next_due(q, now, k1),
        is_next_due(q, now, k2),
    ensures
        k1 == k2,
{
    if k1 < k2 {
        assert(overdue_by(q[k1], now) < overdue_by(q[k2], now));
    } else if k2 < k1 {
        assert(overdue_by(q[k2], now) < overdue_by(q[k1], now));
    }
}

/// Removing a due event leaves the events still waiting as they were.
pub proof fn lemma_remove_due_keeps_waiting(q: Seq<ScheduledEvent>, now: u32, k: int)
    requires
        0 <= k < q.len(),
        has_reached(q[k].due, now),
    ensures
        q.remove(k).filter(still_waiting(now)) == q.filter(still_waiting(now)),
{
    broadcast use Seq::filter_distributes_over_add;
    let a = q.take(k);
    let b = q.skip(k + 1);
    let one = seq![q[k]];
    assert(q == a + (one + b));
    assert(q.remove(k) == a + b);
    assert(one.drop_last() == Seq::<ScheduledEvent>::empty());
    assert(one.filter(still_waiting(now)) == Seq::<ScheduledEvent>::empty()) by {
        reveal_with_fuel(Seq::filter, 2);
    }
    assert((one + b).filter(still_waiting(now)) == one.filter(still_waiting(now)) + b.filter(still_waiting(now)));
    assert(Seq::<ScheduledEvent>::empty() + b.filter(still_waiting(now)) == b.filter(still_waiting(now)));
}

/// With nothing due, every event is still waiting.
pub proof fn lemma_none_due_keeps_all(q: Seq<ScheduledEvent>, now: u32)
    requires
        !any_due(q, now),
    ensures
        q.filter(still_waiting(now)) == q,
    decreases q.len(),
{
    if q.len() > 0 {
        let p = q.drop_last();
        assert(!any_due(p, now)) by {
            if any_due(p, now) {
                let j = choose|j: int| 0 <= j < p.len() && has_reached(#[trigger] p[j].due, now);
                assert(q[j] == p[j]);
            }
        }
        lemma_none_due_keeps_all(p, now);
        assert(!has_reached(q[q.len() - 1].due, now));
        reveal_with_fuel(Seq::filter, 1);
        assert(p.push(q.last()) == q);
    }
}

} // verus!
