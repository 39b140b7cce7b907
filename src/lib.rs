//! Coordination core of a small interrupt-driven controller: wraparound
//! timekeeping, a deadline-ordered ready queue, priority-ceiling locking,
//! a preemptive dispatcher model, button debouncing, NEC infrared frame
//! handling and the periodic task policies built on top of them.

pub mod clock;
pub mod queue;
pub mod debounce;
pub mod tasks;
pub mod apple2009;
pub mod ir;
pub mod ceiling;
pub mod dispatch;
