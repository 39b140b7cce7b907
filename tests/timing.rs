use pwm_remote::clock::{after, before, elapsed, reached};
use pwm_remote::queue::{QueueFull, ReadyQueue, ScheduledEvent};

#[test]
fn after_wraps_at_counter_width() {
    assert_eq!(after(0xFFFF_FFF0, 0x20), 0x10);
    assert_eq!(after(5, 7), 12);
}

#[test]
fn before_is_correct_across_wrap() {
    assert!(before(0xFFFF_FFF0, 0x10));
    assert!(!before(0x10, 0xFFFF_FFF0));
    assert!(!before(7, 7));
    assert!(before(1, 2));
}

#[test]
fn elapsed_counts_modulo_width() {
    assert_eq!(elapsed(0xFFFF_FFFF, 1), 2);
    assert_eq!(elapsed(3, 10), 7);
}

#[test]
fn reached_across_wrap() {
    assert!(reached(0xFFFF_FFF0, 0x05));
    assert!(!reached(0x05, 0xFFFF_FFF0));
    assert!(reached(9, 9));
}

#[test]
fn schedule_fails_when_full() {
    let mut q = ReadyQueue::new(2);
    assert_eq!(q.schedule(0, 10), Ok(()));
    assert_eq!(q.schedule(1, 20), Ok(()));
    assert_eq!(q.schedule(2, 30), Err(QueueFull));
    assert_eq!(q.len(), 2);
}

#[test]
fn pop_due_never_early() {
    let mut q = ReadyQueue::new(4);
    q.schedule(0, 100).unwrap();
    assert_eq!(q.pop_due(99), None);
    assert_eq!(q.pop_due(100), Some(ScheduledEvent { task: 0, due: 100 }));
    assert_eq!(q.pop_due(100), None);
}

#[test]
fn pop_due_in_due_order_across_wrap() {
    let mut q = ReadyQueue::new(8);
    q.schedule(1, 0x0000_0004).unwrap();
    q.schedule(2, 0xFFFF_FFFE).unwrap();
    q.schedule(3, 0x0000_0010).unwrap();
    q.schedule(4, 0x0000_0001).unwrap();
    let now = 0x0000_0005;
    assert_eq!(q.pop_due(now).unwrap().task, 2);
    assert_eq!(q.pop_due(now).unwrap().task, 4);
    assert_eq!(q.pop_due(now).unwrap().task, 1);
    assert_eq!(q.pop_due(now), None);
    assert_eq!(q.len(), 1);
    assert_eq!(q.pop_due(0x10).unwrap().task, 3);
}

#[test]
fn pop_due_ties_are_fifo() {
    let mut q = ReadyQueue::new(4);
    q.schedule(7, 50).unwrap();
    q.schedule(3, 50).unwrap();
    q.schedule(5, 50).unwrap();
    assert_eq!(q.pop_due(60).unwrap().task, 7);
    assert_eq!(q.pop_due(60).unwrap().task, 3);
    assert_eq!(q.pop_due(60).unwrap().task, 5);
}
