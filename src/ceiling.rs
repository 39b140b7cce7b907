//! Priority-ceiling locking of shared state cells.
//!
//! Locking never waits: acquiring raises the effective priority to the
//! cell's ceiling, so no other task that could touch the cell can start until
//! the lock is released.
use vstd::prelude::*;

verus! {

/// A piece of shared state with the highest priority of any task using it.
pub struct SharedCell<T> {
    value: T,
    ceiling: u8,
}

impl<T: Copy> SharedCell<T> {
    pub closed spec fn value_spec(&self) -> T {
        self.value
    }

    pub closed spec fn ceiling_spec(&self) -> u8 {
        self.ceiling
    }

    pub fn new(value: T, ceiling: u8) -> (r: Self)
        ensures
            r.value_spec() == value,
            r.ceiling_spec() == ceiling,
    {
        SharedCell { value, ceiling }
    }

    pub fn ceiling(&self) -> (r: u8)
        ensures
            r == self.ceiling_spec(),
    {
        self.ceiling
    }
}

/// Abstract state of the priority stack.
pub struct LockView {
    /// Priority when nothing is pushed (the idle level).
    pub base: u8,
    /// Highest static priority in the system.
    pub max_priority: u8,
    /// Raised priorities, innermost last.
    pub levels: Seq<u8>,
}

/// The priority the processor currently runs at.
pub open spec fn effective_priority(v: LockView) -> u8 {
    if v.levels.len() == 0 {
        v.base
    } else {
        v.levels.last()
    }
}

/// Levels never drop as they are pushed, and stay within the system's range.
pub open spec fn stack_wf(v: LockView) -> bool {
    &&& v.base <= v.max_priority
    &&& forall|i: int| 0 <= i < v.levels.len() ==> v.base <= #[trigger] v.levels[i] <= v.max_priority
    &&& forall|i: int, j: int| 0 <= i <= j < v.levels.len() ==> v.levels[i] <= v.levels[j]
}

/// A task of static priority `p` may cut in at state `v`.
pub open spec fn preempts(v: LockView, p: u8) -> bool {
    p > effective_priority(v)
}

/// The largest of `ceilings`, or `floor` if it is larger.
pub open spec fn combined_ceiling(floor: u8, ceilings: Seq<u8>) -> u8
    decreases ceilings.len(),
{
    if ceilings.len() == 0 {
        floor
    } else {
        let rest = combined_ceiling(floor, ceilings.drop_last());
        if ceilings.last() > rest {
            ceilings.last()
        } else {
            rest
        }
    }
}

proof fn lemma_combined_bounds(floor: u8, ceilings: Seq<u8>, max: u8)
    requires
        floor <= max,
        forall|i: int| 0 <= i < ceilings.len() ==> #[trigger] ceilings[i] <= max,
    ensures
        floor <= combined_ceiling(floor, ceilings) <= max,
        forall|i: int| 0 <= i < ceilings.len() ==> #[trigger] ceilings[i] <= combined_ceiling(floor, ceilings),
    decreases ceilings.len(),
{
    if ceilings.len() > 0 {
        lemma_combined_bounds(floor, ceilings.drop_last(), max);
        assert forall|i: int| 0 <= i < ceilings.len() implies #[trigger] ceilings[i] <= combined_ceiling(floor, ceilings) by {
            if i < ceilings.len() - 1 {
                assert(ceilings[i] == ceilings.drop_last()[i]);
            }
        }
    }
}

/// Stack of raised priorities.
pub struct LockManager {
    base: u8,
    max_priority: u8,
    levels: Vec<u8>,
}

impl LockManager {
    pub closed spec fn view(&self) -> LockView {
        LockView { base: self.base, max_priority: self.max_priority, levels: self.levels@ }
    }

    pub open spec fn wf(&self) -> bool {
        stack_wf(self@)
    }

    /// A stack running at `base` in a system whose highest priority is `max_priority`.
    pub fn new(base: u8, max_priority: u8) -> (r: Self)
        requires
            base <= max_priority,
        ensures
            r.wf(),
            r@ == (LockView { base, max_priority, levels: Seq::empty() }),
    {
        LockManager { base, max_priority, levels: Vec::new() }
    }

    /// The priority the processor currently runs at.
    pub fn effective(&self) -> (r: u8)
        ensures
            r == effective_priority(self@),
    {
        if self.levels.len() == 0 {
            self.base
        } else {
            self.levels[self.levels.len() - 1]
        }
    }

    /// Number of levels pushed.
    pub fn depth(&self) -> (r: usize)
        ensures
            r == self@.levels.len(),
    {
        self.levels.len()
    }

    /// Whether a task of static priority `p` may cut in now.
    pub fn can_preempt(&self, p: u8) -> (r: bool)
        ensures
            r == preempts(self@, p),
    {
        p > self.effective()
    }

    /// Raises the priority to `p`, which must lie above the current one: a task
    /// of priority `p` starts.
    pub fn enter(&mut self, p: u8)
        requires
            old(self).wf(),
            preempts(old(self)@, p),
            p <= old(self)@.max_priority,
        ensures
            final(self).wf(),
            final(self)@ == (LockView { levels: old(self)@.levels.push(p), ..old(self)@ }),
    {
        self.levels.push(p);
    }

    /// Locks every cell whose ceiling is listed: the priority rises to the
    /// largest of them, or stays where it is if that is higher.
    pub fn acquire(&mut self, ceilings: &[u8])
        requires
            old(self).wf(),
            forall|i: int| 0 <= i < ceilings@.len() ==> #[trigger] ceilings@[i] <= old(self)@.max_priority,
        ensures
            final(self).wf(),
            final(self)@ == (LockView {
                levels: old(self)@.levels.push(
                    combined_ceiling(effective_priority(old(self)@), ceilings@),
                ),
                ..old(self)@
            }),
    {
        let mut level = self.effective();
        let mut i: usize = 0;
        while i < ceilings.len()
            invariant
                0 <= i <= ceilings@.len(),
                level == combined_ceiling(effective_priority(self@), ceilings@.subrange(0, i as int)),
            decreases ceilings@.len() - i,
        {
            proof {
                assert(ceilings@.subrange(0, i + 1).drop_last() == ceilings@.subrange(0, i as int));
            }
            if ceilings[i] > level {
                level = ceilings[i];
            }
            i += 1;
        }
        proof {
            assert(ceilings@.subrange(0, ceilings@.len() as int) == ceilings@);
            lemma_combined_bounds(effective_priority(self@), ceilings@, self.max_priority);
        }
        self.levels.push(level);
    }

    /// Drops the innermost raised level: a lock is released or a task ends.
    pub fn release(&mut self)
        requires
            old(self).wf(),
            old(self)@.levels.len() > 0,
        ensures
            final(self).wf(),
            final(self)@ == (LockView { levels: old(self)@.levels.drop_last(), ..old(self)@ }),
    {
        self.levels.pop();
    }

    /// Runs `f` on the cell's value with the cell locked, stores its result
    /// and unlocks; the stack is as before afterwards.
    pub fn lock<T: Copy, F: FnOnce(T) -> T>(&mut self, cell: &mut SharedCell<T>, f: F)
        requires
            old(self).wf(),
            old(cell).ceiling_spec() <= old(self)@.max_priority,
            f.requires((old(cell).value_spec(),)),
        ensures
            final(self)@ == old(self)@,
            final(cell).ceiling_spec() == old(cell).ceiling_spec(),
            f.ensures((old(cell).value_spec(),), final(cell).value_spec()),
    {
        let c = [cell.ceiling];
        self.acquire(&c);
        cell.value = f(cell.value);
        self.release();
        proof {
            assert(self.levels@ =~= old(self)@.levels);
        }
    }

    /// Reads the cell's value with the cell locked.
    pub fn read<T: Copy>(&mut self, cell: &SharedCell<T>) -> (r: T)
        requires
            old(self).wf(),
            cell.ceiling_spec() <= old(self)@.max_priority,
        ensures
            final(self)@ == old(self)@,
            r == cell.value_spec(),
    {
        let c = [cell.ceiling];
        self.acquire(&c);
        let r = cell.value;
        self.release();
        proof {
            assert(self.levels@ =~= old(self)@.levels);
        }
        r
    }
}

/// While a level at or above `ceiling` is held anywhere in the stack, no task
/// of priority at most `ceiling` can cut in: a task sharing a locked cell never
/// runs in the middle of the holder's update, however deeply locks nest above.
pub proof fn lemma_ceiling_excludes_sharers(v: LockView, i: int, ceiling: u8, p: u8)
    requires
        stack_wf(v),
        0 <= i < v.levels.len(),
        v.levels[i] >= ceiling,
        p <= ceiling,
    ensures
        !preempts(v, p),
{
    assert(v.levels[i] <= v.levels[v.levels.len() - 1]);
}

} // verus!
