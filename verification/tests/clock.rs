use vbus_core::clock::saturate;
use vbus_core::Clock;

#[test]
fn saturate_keeps_what_fits_and_holds_the_rest_at_the_top() {
    assert_eq!(saturate(0), 0);
    assert_eq!(saturate(1_500_000_000), 1_500_000_000);
    assert_eq!(saturate(u64::MAX as u128), u64::MAX);
    assert_eq!(saturate(u64::MAX as u128 + 1), u64::MAX);
    assert_eq!(saturate(u128::MAX), u64::MAX);
}

#[test]
fn clock_readings_do_not_go_back() {
    let clock = Clock::new();
    let first = clock.now();
    let second = clock.now();
    assert!(second >= first);
    // A clock counts from the moment it was made.
    assert!(first < 60_000_000_000);
}
