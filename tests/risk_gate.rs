use quantsim::risk::Risk;

#[test]
fn admits_inventory_exactly_at_limit() {
    let mut r = Risk::new(5_000_000, 100, 0);
    assert!(r.allow(5_000_000, 0));
    assert!(r.allow(-5_000_000, 0));
}

#[test]
fn rejects_inventory_beyond_limit() {
    let mut r = Risk::new(5_000_000, 100, 0);
    assert!(!r.allow(5_000_001, 0));
    assert!(!r.allow(-5_000_001, 0));
    // a position rejection does not use up the rate budget
    assert_eq!(r.sent_last_sec, 0);
}

#[test]
fn rate_ceiling_within_one_second() {
    let mut r = Risk::new(10, 3, 1_000);
    assert!(r.allow(0, 1_000));
    assert!(r.allow(0, 1_200));
    assert!(r.allow(0, 1_999));
    assert!(!r.allow(0, 1_999));
    assert!(!r.allow(0, 1_500));
}

#[test]
fn rate_counter_resets_exactly_at_second_boundary() {
    let mut r = Risk::new(10, 2, 0);
    assert!(r.allow(0, 0));
    assert!(r.allow(0, 10));
    assert!(!r.allow(0, 999));
    assert!(r.allow(0, 1_000));
    assert_eq!(r.last_ts_ms, 1_000);
    assert_eq!(r.sent_last_sec, 1);
    assert!(r.allow(0, 1_500));
    assert!(!r.allow(0, 1_999));
    assert!(r.allow(0, 2_000));
}

#[test]
fn zero_ceiling_admits_nothing() {
    let mut r = Risk::new(10, 0, 0);
    assert!(!r.allow(0, 0));
    assert!(!r.allow(0, 5_000));
}

#[test]
fn allow_all_checks_every_balance() {
    let mut r = Risk::new(100, 10, 0);
    assert!(r.allow_all(&vec![100, -100, 0], 0));
    assert!(!r.allow_all(&vec![100, -101, 0], 0));
    assert_eq!(r.sent_last_sec, 1);
}
