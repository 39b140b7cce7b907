//! A free-running 32-bit monotonic counter and wraparound-correct arithmetic.
use vstd::prelude::*;

verus! {

/// Number of distinct counter values.
pub open spec fn counter_range() -> int {
    0x1_0000_0000
}

/// Forward distance from `from` to `to`, counted modulo the counter width.
pub open spec fn distance(from: u32, to: u32) -> int {
    if from <= to {
        to - from
    } else {
        to - from + counter_range()
    }
}

/// `a` lies strictly before `b`: the forward distance from `a` to `b` is
/// non-zero and shorter than half the counter range.
pub open spec fn is_before(a: u32, b: u32) -> bool {
    0 < distance(a, b) < 0x8000_0000
}

/// `due` has been reached at `now`: `now` is `due` or lies after it.
pub open spec fn has_reached(due: u32, now: u32) -> bool {
    distance(due, now) < 0x8000_0000
}

/// The instant `d` ticks after `i`, wrapping at the counter width.
pub open spec fn after_spec(i: u32, d: u32) -> u32 {
    ((i + d) % counter_range()) as u32
}

/// Ticks elapsed from `from` to `to`, modulo the counter width.
pub fn elapsed(from: u32, to: u32) -> (r: u32)
    ensures
        r == distance(from, to),
{
    to.wrapping_sub(from)
}

/// The instant `d` ticks after `i`.
pub fn after(i: u32, d: u32) -> (r: u32)
    ensures
        r == after_spec(i, d),
        distance(i, r) == d,
{
    i.wrapping_add(d)
}

/// Whether `a` lies strictly before `b`, correct across one wrap of the counter.
pub fn before(a: u32, b: u32) -> (r: bool)
    ensures
        r == is_before(a, b),
{
    let d = b.wrapping_sub(a);
    0 < d && d < 0x8000_0000
}

/// Whether the instant `due` has been reached at `now`.
pub fn reached(due: u32, now: u32) -> (r: bool)
    ensures
        r == has_reached(due, now),
{
    now.wrapping_sub(due) < 0x8000_0000
}

/// An instant lies before any instant a short positive distance after it, also
/// when that later instant has wrapped past zero.
pub proof fn lemma_after_is_later(i: u32, d: u32)
    requires
        0 < d < 0x8000_0000,
    ensures
        is_before(i, after_spec(i, d)),
        !is_before(after_spec(i, d), i),
{
}

} // verus!
