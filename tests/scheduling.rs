use pwm_remote::ceiling::{LockManager, SharedCell};
use pwm_remote::dispatch::Dispatcher;
use pwm_remote::queue::ReadyQueue;

#[test]
fn lock_runs_update_and_restores_priority() {
    let mut m = LockManager::new(1, 3);
    let mut cell = SharedCell::new(4u8, 2);
    m.lock(&mut cell, |v| v + 1);
    assert_eq!(m.read(&cell), 5);
    assert_eq!(m.effective(), 1);
    assert_eq!(m.depth(), 0);
}

#[test]
fn acquire_raises_to_combined_ceiling() {
    let mut m = LockManager::new(1, 3);
    m.acquire(&[2, 3]);
    assert_eq!(m.effective(), 3);
    assert!(!m.can_preempt(3));
    m.release();
    assert_eq!(m.effective(), 1);
    assert!(m.can_preempt(2));
    m.acquire(&[]);
    assert_eq!(m.effective(), 1);
}

#[test]
fn higher_priority_runs_first_and_fifo_among_equals() {
    let mut d = Dispatcher::new(vec![1, 2, 2, 3], 3);
    d.raise(1);
    d.raise(0);
    d.raise(2);
    assert_eq!(d.dispatch(), Some(1));
    assert_eq!(d.current(), Some(1));
    assert_eq!(d.effective(), 2);
    // Equal priority does not preempt.
    assert_eq!(d.dispatch(), None);
    assert_eq!(d.complete(), 1);
    assert_eq!(d.dispatch(), Some(2));
    assert_eq!(d.complete(), 2);
    assert_eq!(d.dispatch(), Some(0));
    assert_eq!(d.complete(), 0);
    assert_eq!(d.current(), None);
    assert_eq!(d.effective(), 0);
}

#[test]
fn lock_holder_is_not_preempted_by_sharer() {
    let mut d = Dispatcher::new(vec![1, 2, 3], 3);
    d.raise(0);
    assert_eq!(d.dispatch(), Some(0));
    // Task 0 locks a cell shared with task 1 (ceiling 2).
    d.acquire(&[2]);
    d.raise(1);
    assert_eq!(d.dispatch(), None);
    // A task that does not share the cell still cuts in.
    d.raise(2);
    assert_eq!(d.dispatch(), Some(2));
    assert_eq!(d.complete(), 2);
    d.release();
    assert_eq!(d.dispatch(), Some(1));
}

#[test]
fn due_events_become_runnable() {
    let mut q = ReadyQueue::new(4);
    q.schedule(1, 100).unwrap();
    q.schedule(0, 50).unwrap();
    q.schedule(2, 500).unwrap();
    let mut d = Dispatcher::new(vec![1, 1, 1], 3);
    d.release_due(&mut q, 200);
    assert_eq!(q.len(), 1);
    assert_eq!(d.dispatch(), Some(0));
    assert_eq!(d.complete(), 0);
    assert_eq!(d.dispatch(), Some(1));
}

#[test]
fn release_due_keeps_pop_order_and_waiting_events() {
    let mut q = ReadyQueue::new(8);
    q.schedule(0, 300).unwrap();
    q.schedule(1, 100).unwrap();
    q.schedule(2, 900).unwrap();
    q.schedule(3, 200).unwrap();
    q.schedule(4, 800).unwrap();
    let mut d = Dispatcher::new(vec![1, 1, 1, 1, 1], 3);
    d.release_due(&mut q, 500);
    assert_eq!(q.len(), 2);
    assert_eq!(d.dispatch(), Some(1));
    assert_eq!(d.complete(), 1);
    assert_eq!(d.dispatch(), Some(3));
    assert_eq!(d.complete(), 3);
    assert_eq!(d.dispatch(), Some(0));
    assert_eq!(d.complete(), 0);
    assert_eq!(d.dispatch(), None);
    assert_eq!(q.pop_due(1000).unwrap().task, 4);
    assert_eq!(q.pop_due(1000).unwrap().task, 2);
}
