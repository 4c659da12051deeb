use tokenguard::LimitCounters;

#[test]
fn request_counter_increments_atomically() {
    let mut counters = LimitCounters::new();
    assert_eq!(counters.increment(1, 1), 1);
    assert_eq!(counters.increment(1, 1), 2);
    assert_eq!(counters.get(1), 2);
}

#[test]
fn different_limits_have_separate_counters() {
    let mut counters = LimitCounters::new();
    counters.increment(1, 3);
    counters.increment(2, 5);
    assert_eq!(counters.get(1), 3);
    assert_eq!(counters.get(2), 5);
}

#[test]
fn success_path_reservation_roundtrips_to_zero() {
    let mut counters = LimitCounters::new();
    assert_eq!(counters.increment(1, 1), 1);
    assert_eq!(counters.release(1), 0);
    assert_eq!(counters.get(1), 0);
}

#[test]
fn block_path_does_not_leak_reservations() {
    let mut counters = LimitCounters::new();
    for _ in 0..10 {
        counters.increment(1, 1);
        counters.release(1);
    }
    assert_eq!(counters.get(1), 0);
}

#[test]
fn release_clamps_at_zero() {
    let mut counters = LimitCounters::new();
    assert_eq!(counters.release(1), 0);
    counters.increment(1, 1);
    counters.release(1);
    assert_eq!(counters.release(1), 0);
    assert_eq!(counters.get(1), 0);
}

#[test]
fn entries_are_bounded_by_limit_count() {
    let mut counters = LimitCounters::new();
    for id in 0..5 {
        counters.increment(id, 1);
    }
    assert_eq!(counters.len(), 5);
}

#[test]
fn increments_saturate_instead_of_overflowing() {
    let mut counters = LimitCounters::new();
    counters.increment(7, u64::MAX - 1);
    assert_eq!(counters.increment(7, 5), u64::MAX);
    assert_eq!(counters.release_amount(7, 10), u64::MAX - 10);
}
