use creatures::fixed::clamp_to;
use creatures::fixed::isqrt;
use creatures::fixed::narrow;
use creatures::fixed::scale;
use creatures::fixed::ONE;

#[test]
fn one_is_a_million() {
    assert_eq!(ONE, 1_000_000);
}

#[test]
fn clamp_to_stops_at_both_ends() {
    assert_eq!(clamp_to(-5, 0, 10), 0);
    assert_eq!(clamp_to(0, 0, 10), 0);
    assert_eq!(clamp_to(7, 0, 10), 7);
    assert_eq!(clamp_to(10, 0, 10), 10);
    assert_eq!(clamp_to(11, 0, 10), 10);
    assert_eq!(clamp_to(i64::MIN, -3, -3), -3);
    assert_eq!(clamp_to(i64::MAX, i64::MIN, i64::MAX), i64::MAX);
}

#[test]
fn narrow_stops_at_the_ends_of_the_range() {
    assert_eq!(narrow(0), 0);
    assert_eq!(narrow(-12), -12);
    assert_eq!(narrow(i64::MAX as i128), i64::MAX);
    assert_eq!(narrow(i64::MAX as i128 + 1), i64::MAX);
    assert_eq!(narrow(i64::MIN as i128), i64::MIN);
    assert_eq!(narrow(i64::MIN as i128 - 1), i64::MIN);
    assert_eq!(narrow(i128::MAX), i64::MAX);
    assert_eq!(narrow(i128::MIN), i64::MIN);
}

#[test]
fn scale_rounds_toward_zero() {
    assert_eq!(scale(ONE, ONE), ONE as i128);
    assert_eq!(scale(3, 500_000), 1);
    assert_eq!(scale(-3, 500_000), -1);
    assert_eq!(scale(3, -500_000), -1);
    assert_eq!(scale(-3, -500_000), 1);
    assert_eq!(scale(1, 999_999), 0);
    assert_eq!(scale(-1, 999_999), 0);
    assert_eq!(scale(0, i64::MAX), 0);
    assert_eq!(scale(ONE, -77), -77);
    assert_eq!(scale(-ONE, -77), 77);
    assert_eq!(scale(1_500_000, 2_500_000), 3_750_000);
    assert_eq!(scale(i64::MAX, i64::MAX), (i64::MAX as i128) * (i64::MAX as i128) / 1_000_000);
    assert_eq!(scale(i64::MIN, i64::MIN), (i64::MIN as i128) * (i64::MIN as i128) / 1_000_000);
    assert_eq!(scale(i64::MIN, i64::MAX), (i64::MIN as i128) * (i64::MAX as i128) / 1_000_000);
}

#[test]
fn isqrt_is_the_floor_of_the_root() {
    assert_eq!(isqrt(0), 0);
    assert_eq!(isqrt(1), 1);
    assert_eq!(isqrt(2), 1);
    assert_eq!(isqrt(3), 1);
    assert_eq!(isqrt(4), 2);
    assert_eq!(isqrt(99), 9);
    assert_eq!(isqrt(100), 10);
    assert_eq!(isqrt(1_999_999), 1_414);
    assert_eq!(isqrt(1_000_000_000_000), 1_000_000);
    assert_eq!(isqrt(999_999_999_999), 999_999);
    assert_eq!(isqrt(u64::MAX), 4_294_967_295);
}

#[test]
fn isqrt_brackets_every_number() {
    let mut n: u64 = 0;
    while n < 5_000_000_000_000 {
        let root = isqrt(n) as u128;
        assert!(root * root <= n as u128);
        assert!((n as u128) < (root + 1) * (root + 1));
        n = n * 3 + 7;
    }
}
