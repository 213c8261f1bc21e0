use sensor_core::monotonic::Timer;
use sensor_core::monotonic::compare_value;

#[test]
fn now_is_nondecreasing_over_many_reads() {
    let mut t = Timer::start(0, vec![1, 0, 7, 3, 0, 0, 12, 5, 2, 9, 0, 4]);
    let mut prev: u64 = 0;
    for _ in 0..10 {
        let n = t.now();
        assert!(n >= prev);
        prev = n;
    }
}

#[test]
fn now_is_nondecreasing_across_low_field_overflow() {
    // counter starts just below the low 32-bit boundary; the scripted
    // advances carry it across while now() is reading the halves
    let mut t = Timer::start(0xFFFF_FFF0, vec![8, 8, 8]);
    let n1 = t.now();
    assert!(n1 >= 0xFFFF_FFF0);
    assert_eq!(n1, 0x1_0000_0008);
    let n2 = t.now();
    assert!(n2 >= n1);
}

#[test]
fn now_with_frozen_counter_returns_its_value() {
    let mut t = Timer::start(12345, vec![]);
    assert_eq!(t.now(), 12345);
    assert_eq!(t.now(), 12345);
}

#[test]
fn compare_value_reachable_target_uses_target_low_bits() {
    assert_eq!(compare_value(1000, 2000), 2000);
    assert_eq!(compare_value(0x2_0000_0100, 0x2_0000_0200), 0x200);
}

#[test]
fn compare_value_past_or_far_target_uses_now() {
    // target already in the past
    assert_eq!(compare_value(1000, 500), 1000);
    // target farther than one low-field period away
    assert_eq!(compare_value(0, 0x1_0000_0001), 0);
    assert_eq!(compare_value(0x10, 0x2_0000_0000), 0x10);
}

#[test]
fn alarm_flags_set_and_clear() {
    let mut t = Timer::start(0, vec![]);
    assert!(!t.get_compare_flag());
    t.raise_compare_flag();
    assert!(t.get_compare_flag());
    t.clear_compare_flag();
    assert!(!t.get_compare_flag());
    assert!(!t.get_irq_pending());
    t.pend_interrupt();
    assert!(t.get_irq_pending());
    assert!(t.take_pending());
    assert!(!t.get_irq_pending());
}

#[test]
fn set_compare_programs_target_within_period() {
    let mut t = Timer::start(100, vec![]);
    t.set_compare(600);
    assert_eq!(t.get_compare(), 600);
    // unreachable target falls back to the current instant
    t.set_compare(0x1_0000_0000 + 200);
    assert_eq!(t.get_compare(), 100);
}
