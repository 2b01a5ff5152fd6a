use creatures::fixed::ONE;
use creatures::heading::direction_of;
use creatures::heading::wrap_angle;
use creatures::heading::EIGHTH_TURN;
use creatures::heading::FULL_TURN;
use creatures::heading::HALF_TURN;
use creatures::heading::QUARTER_TURN;

#[test]
fn turns_are_parts_of_a_full_turn() {
    assert_eq!(FULL_TURN, 6_283_184);
    assert_eq!(HALF_TURN * 2, FULL_TURN);
    assert_eq!(QUARTER_TURN * 4, FULL_TURN);
    assert_eq!(EIGHTH_TURN * 8, FULL_TURN);
    assert!((FULL_TURN as f64 / 1e6 - std::f64::consts::TAU).abs() < 2e-6);
}

#[test]
fn wrap_angle_is_never_negative() {
    assert_eq!(wrap_angle(0), 0);
    assert_eq!(wrap_angle(1), 1);
    assert_eq!(wrap_angle(-1), FULL_TURN - 1);
    assert_eq!(wrap_angle(FULL_TURN as i128), 0);
    assert_eq!(wrap_angle(FULL_TURN as i128 - 1), FULL_TURN - 1);
    assert_eq!(wrap_angle(-(FULL_TURN as i128)), 0);
    assert_eq!(wrap_angle(-(FULL_TURN as i128) - 1), FULL_TURN - 1);
    assert_eq!(wrap_angle(10 * FULL_TURN as i128 + 12_345), 12_345);
    assert_eq!(wrap_angle(-10 * FULL_TURN as i128 + 12_345), 12_345);
    assert_eq!(wrap_angle(i64::MAX as i128 + i64::MAX as i128), 5_053_630);
    assert_eq!(wrap_angle(i64::MIN as i128 + i64::MIN as i128), 1_229_552);
}

#[test]
fn directions_along_the_axes_are_exact() {
    assert_eq!(direction_of(0), (ONE, 0));
    assert_eq!(direction_of(QUARTER_TURN), (0, ONE));
    assert_eq!(direction_of(HALF_TURN), (-ONE, 0));
    assert_eq!(direction_of(3 * QUARTER_TURN), (0, -ONE));
    assert_eq!(direction_of(FULL_TURN), (ONE, 0));
    assert_eq!(direction_of(-QUARTER_TURN), (0, -ONE));
}

#[test]
fn directions_at_chosen_headings() {
    assert_eq!(direction_of(1), (999_999, 1));
    assert_eq!(direction_of(250_000), (968_912, 247_403));
    assert_eq!(direction_of(523_599), (866_025, 500_000));
    assert_eq!(direction_of(EIGHTH_TURN), (707_107, 707_106));
    assert_eq!(direction_of(EIGHTH_TURN + 1), (707_105, 707_108));
    assert_eq!(direction_of(1_000_000), (540_302, 841_471));
    assert_eq!(direction_of(QUARTER_TURN - 1), (1, 999_999));
    assert_eq!(direction_of(2_000_000), (-416_147, 909_297));
    assert_eq!(direction_of(4_000_000), (-653_642, -756_803));
    assert_eq!(direction_of(5_500_000), (708_671, -705_539));
    assert_eq!(direction_of(FULL_TURN - 1), (999_999, -1));
    assert_eq!(direction_of(-1), (999_999, -1));
    assert_eq!(direction_of(-EIGHTH_TURN), (707_106, -707_107));
}

#[test]
fn directions_follow_cosine_and_sine() {
    let mut angle: i64 = -FULL_TURN;
    while angle < 2 * FULL_TURN {
        let (x, y) = direction_of(angle);
        let radians = angle.rem_euclid(FULL_TURN) as f64 / 1e6;
        assert!((x as f64 / 1e6 - radians.cos()).abs() < 2.5e-6);
        assert!((y as f64 / 1e6 - radians.sin()).abs() < 2.5e-6);
        angle += 101;
    }
}

#[test]
fn directions_of_the_first_quarter_follow_cosine_and_sine() {
    let mut angle: i64 = 0;
    while angle <= QUARTER_TURN {
        let (x, y) = direction_of(angle);
        let radians = angle as f64 / 1e6;
        assert!((x as f64 / 1e6 - radians.cos()).abs() < 1.5e-6);
        assert!((y as f64 / 1e6 - radians.sin()).abs() < 1.5e-6);
        angle += 1;
    }
}

#[test]
fn direction_mirrors_about_the_eighth() {
    let mut angle: i64 = 0;
    while angle <= QUARTER_TURN {
        if angle != EIGHTH_TURN {
            let (x, y) = direction_of(angle);
            assert_eq!(direction_of(QUARTER_TURN - angle), (y, x));
        }
        angle += 997;
    }
}

#[test]
fn directions_have_unit_length() {
    let mut angle: i64 = -FULL_TURN;
    while angle < 2 * FULL_TURN {
        let (x, y) = direction_of(angle);
        assert!(-ONE <= x && x <= ONE);
        assert!(-ONE <= y && y <= ONE);
        let norm = x * x + y * y;
        assert!(norm <= ONE * ONE);
        assert!(norm >= ONE * ONE - 2 * ONE);
        angle += 1_013;
    }
}

#[test]
fn a_quarter_more_turns_the_direction_by_a_quarter() {
    let mut angle: i64 = -FULL_TURN;
    while angle < 2 * FULL_TURN {
        let (x, y) = direction_of(angle);
        assert_eq!(direction_of(angle + QUARTER_TURN), (-y, x));
        assert_eq!(direction_of(angle + HALF_TURN), (-x, -y));
        angle += 7_919;
    }
}

#[test]
fn whole_turns_keep_the_direction() {
    let mut angle: i64 = 0;
    while angle < FULL_TURN {
        let direction = direction_of(angle);
        assert_eq!(direction_of(angle + FULL_TURN), direction);
        assert_eq!(direction_of(angle - 5 * FULL_TURN), direction);
        angle += 9_973;
    }
}

#[test]
fn directions_at_the_ends_of_the_range() {
    let (x, y) = direction_of(i64::MAX);
    assert!(x * x + y * y <= ONE * ONE);
    let (x, y) = direction_of(i64::MIN);
    assert!(x * x + y * y <= ONE * ONE);
}
