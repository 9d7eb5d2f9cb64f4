use ray_tracer::interval::{Interval, INFINITY, NEG_INFINITY};

#[test]
fn surrounds_is_strict_and_contains_is_inclusive() {
    let iv = Interval(1_000_000, 2_000_000);
    assert!(!iv.surrounds(1_000_000));
    assert!(iv.surrounds(1_500_000));
    assert!(!iv.surrounds(2_000_000));
    assert!(iv.contains(1_000_000));
    assert!(iv.contains(2_000_000));
    assert!(!iv.contains(999_999));
    assert!(!iv.contains(2_000_001));
}

#[test]
fn clamp_saturates_into_the_interval() {
    let iv = Interval(0, 999_000);
    assert_eq!(iv.clamp(-5), 0);
    assert_eq!(iv.clamp(0), 0);
    assert_eq!(iv.clamp(123_456), 123_456);
    assert_eq!(iv.clamp(999_000), 999_000);
    assert_eq!(iv.clamp(5_000_000), 999_000);
}

#[test]
fn size_and_accessors() {
    let iv = Interval(-1_000_000, 2_500_000);
    assert_eq!(iv.min(), -1_000_000);
    assert_eq!(iv.max(), 2_500_000);
    assert_eq!(iv.size(), 3_500_000);
}

#[test]
fn empty_surrounds_nothing_and_universe_everything_in_range() {
    let empty = Interval::empty();
    assert!(!empty.surrounds(0));
    assert!(!empty.contains(0));
    let universe = Interval::universe();
    assert!(universe.surrounds(0));
    assert!(universe.surrounds(-123_456_789));
    assert_eq!(universe.min(), NEG_INFINITY);
    assert_eq!(universe.max(), INFINITY);
}

#[test]
fn default_is_empty() {
    let iv: Interval = Default::default();
    assert_eq!(iv, Interval::empty());
}
