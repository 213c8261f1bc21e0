use sensor_core::monotonic::Timer;
use sensor_core::timer_queue::TimeoutError;
use sensor_core::timer_queue::TimerQueue;

#[test]
fn wakeups_fire_in_deadline_order() {
    let mut q = TimerQueue::new();
    q.insert(30, 3);
    q.insert(10, 1);
    q.insert(20, 2);
    let woken = q.drain_due(25);
    let deadlines: Vec<u64> = woken.iter().map(|e| e.deadline).collect();
    let waiters: Vec<u32> = woken.iter().map(|e| e.waiter).collect();
    assert_eq!(deadlines, vec![10, 20]);
    assert_eq!(waiters, vec![1, 2]);
    assert_eq!(q.next_deadline(), Some(30));
    assert_eq!(q.len(), 1);
}

#[test]
fn equal_deadlines_wake_in_insertion_order() {
    let mut q = TimerQueue::new();
    q.insert(10, 11);
    q.insert(10, 12);
    q.insert(10, 13);
    q.insert(5, 9);
    let woken = q.drain_due(10);
    let waiters: Vec<u32> = woken.iter().map(|e| e.waiter).collect();
    assert_eq!(waiters, vec![9, 11, 12, 13]);
    assert_eq!(q.len(), 0);
}

#[test]
fn drain_wakes_nothing_early() {
    let mut q = TimerQueue::new();
    q.insert(100, 1);
    let woken = q.drain_due(99);
    assert!(woken.is_empty());
    assert_eq!(q.len(), 1);
}

#[test]
fn earliest_insertion_reprograms_compare() {
    let mut t = Timer::start(100, vec![]);
    let mut q = TimerQueue::new();
    let first = q.delay_until(&mut t, 500, 1);
    assert!(first);
    assert_eq!(t.get_compare(), 500);
    // a later deadline must not touch the alarm
    let first = q.delay_until(&mut t, 900, 2);
    assert!(!first);
    assert_eq!(t.get_compare(), 500);
    // an earlier one must
    let first = q.delay_until(&mut t, 300, 3);
    assert!(first);
    assert_eq!(t.get_compare(), 300);
}

#[test]
fn zero_length_delay_still_registers() {
    let mut t = Timer::start(100, vec![]);
    let mut q = TimerQueue::new();
    let first = q.delay_until(&mut t, 100, 1);
    assert!(first);
    assert_eq!(q.len(), 1);
    // the alarm is armed for the immediate, spurious-but-safe wake
    assert_eq!(t.get_compare(), 100);
}

#[test]
fn delay_computes_deadline_from_now() {
    let mut t = Timer::start(1000, vec![]);
    let mut q = TimerQueue::new();
    let deadline = q.delay(&mut t, 250, 1);
    assert_eq!(deadline, 1250);
    assert_eq!(q.next_deadline(), Some(1250));
}

#[test]
fn overlong_delay_clamps_instead_of_wrapping() {
    let mut t = Timer::start(u64::MAX - 10, vec![]);
    let mut q = TimerQueue::new();
    let deadline = q.delay(&mut t, 1000, 1);
    assert_eq!(deadline, u64::MAX);
}

#[test]
fn timeout_after_registers_deadline_from_now() {
    let mut t = Timer::start(100, vec![]);
    let mut q = TimerQueue::new();
    let d = q.timeout_after(&mut t, 400, 9);
    assert_eq!(d, 500);
    assert_eq!(q.next_deadline(), Some(500));
}

#[test]
fn timeout_where_future_wins_leaves_no_timer_entry() {
    let mut t = Timer::start(0, vec![]);
    let mut q = TimerQueue::new();
    // the raced suspension is a delay to 50, the timeout arm fires at 100
    q.timeout_at(&mut t, 100, 7);
    q.delay_until(&mut t, 50, 8);
    let woken = q.drain_due(50);
    assert_eq!(woken.len(), 1);
    assert_eq!(woken[0].waiter, 8);
    let r: Result<u32, TimeoutError> = q.timeout_complete(42, 7);
    assert_eq!(r, Ok(42));
    // no residual registration of the timeout arm
    assert_eq!(q.len(), 0);
    assert!(q.drain_due(u64::MAX).is_empty());
}

#[test]
fn timeout_where_deadline_wins_cancels_the_future() {
    let mut t = Timer::start(0, vec![]);
    let mut q = TimerQueue::new();
    q.timeout_at(&mut t, 100, 7);
    q.delay_until(&mut t, 150, 8);
    let woken = q.drain_due(100);
    assert_eq!(woken.len(), 1);
    assert_eq!(woken[0].waiter, 7);
    let r: Result<u32, TimeoutError> = q.timeout_expire(8);
    assert_eq!(r, Err(TimeoutError));
    // no residual registration of the raced future
    assert_eq!(q.len(), 0);
    assert!(q.drain_due(u64::MAX).is_empty());
}

#[test]
fn cancel_of_absent_waiter_changes_nothing() {
    let mut q = TimerQueue::new();
    q.insert(10, 1);
    assert_eq!(q.cancel(99), None);
    assert_eq!(q.len(), 1);
    assert_eq!(q.cancel(1), Some(0));
    assert_eq!(q.len(), 0);
}

#[test]
fn interrupt_drains_due_and_rearms() {
    let mut t = Timer::start(100, vec![]);
    let mut q = TimerQueue::new();
    q.insert(50, 1);
    q.insert(200, 2);
    t.raise_compare_flag();
    let woken = q.on_interrupt(&mut t);
    assert!(!t.get_compare_flag());
    let waiters: Vec<u32> = woken.iter().map(|e| e.waiter).collect();
    assert_eq!(waiters, vec![1]);
    assert_eq!(q.next_deadline(), Some(200));
    assert_eq!(t.get_compare(), 200);
}

#[test]
fn interrupt_with_empty_queue_leaves_alarm_alone() {
    let mut t = Timer::start(100, vec![]);
    t.set_compare(700);
    t.raise_compare_flag();
    let mut q = TimerQueue::new();
    let woken = q.on_interrupt(&mut t);
    assert!(woken.is_empty());
    assert!(!t.get_compare_flag());
    assert_eq!(t.get_compare(), 700);
}
