use gnss_rcv::receiver::{samples_to_drop, samples_to_pull, should_attempt_fix};

#[test]
fn window_pull_fills_then_rolls() {
    assert_eq!(samples_to_pull(0, 2046), 4092);
    assert_eq!(samples_to_pull(4092, 2046), 2046);
}

#[test]
fn window_drop_restores_two_periods() {
    assert_eq!(samples_to_drop(4092, 2046), 0);
    assert_eq!(samples_to_drop(6138, 2046), 2046);
}

#[test]
fn fix_cadence_needs_time_and_satellites() {
    assert!(should_attempt_fix(2000, 0, 4));
    assert!(!should_attempt_fix(1999, 0, 4));
    assert!(!should_attempt_fix(2000, 0, 3));
    assert!(should_attempt_fix(10_000, 7000, 6));
    assert!(!should_attempt_fix(8999, 7000, 6));
}
