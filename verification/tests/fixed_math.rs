use micromouse_logic::fixed::{
    div_toward_zero, magnitude, saturate, sqrt_floor, FRAC_PI_2, LIMIT, PI, TAU,
};
use micromouse_logic::math::{Direction, Vector};

#[test]
fn angles_are_exact_multiples() {
    assert_eq!(PI, 2 * FRAC_PI_2);
    assert_eq!(TAU, 2 * PI);
    assert_eq!(FRAC_PI_2, 1_570_796);
}

#[test]
fn square_root_rounds_down() {
    assert_eq!(sqrt_floor(0), 0);
    assert_eq!(sqrt_floor(1), 1);
    assert_eq!(sqrt_floor(3), 1);
    assert_eq!(sqrt_floor(4), 2);
    assert_eq!(sqrt_floor(24), 4);
    assert_eq!(sqrt_floor(25), 5);
    assert_eq!(sqrt_floor(1_000_000_000_000_000_000_000_000_000_000), 1_000_000_000_000_000);
    assert_eq!(sqrt_floor(u128::MAX), u64::MAX);
}

#[test]
fn division_rounds_toward_zero() {
    assert_eq!(div_toward_zero(7, 2), 3);
    assert_eq!(div_toward_zero(-7, 2), -3);
    assert_eq!(div_toward_zero(7, -2), -3);
    assert_eq!(div_toward_zero(-7, -2), 3);
    assert_eq!(div_toward_zero(0, -5), 0);
    assert_eq!(div_toward_zero(1, i128::MIN), 0);
}

#[test]
fn saturation_is_symmetric() {
    assert_eq!(saturate(5), 5);
    assert_eq!(saturate(-5), -5);
    assert_eq!(saturate(i128::MAX), LIMIT);
    assert_eq!(saturate(i128::MIN), -LIMIT);
    assert_eq!(saturate(i64::MIN as i128), -LIMIT);
    assert_eq!(saturate(LIMIT as i128), LIMIT);
}

#[test]
fn magnitude_of_the_extremes() {
    assert_eq!(magnitude(-3), 3);
    assert_eq!(magnitude(3), 3);
    assert_eq!(magnitude(i128::MIN), 1u128 << 127);
}

#[test]
fn cross_product_is_positive_to_the_left() {
    let ahead = Vector { x: 1_000, y: 0 };
    let left = Vector { x: 0, y: 50 };
    assert_eq!(ahead.cross(left), 50_000);
    assert_eq!(left.cross(ahead), -50_000);
    assert_eq!(ahead.cross(ahead), 0);
}

#[test]
fn difference_and_length() {
    let a = Vector { x: 7, y: -1 };
    let b = Vector { x: 4, y: -5 };
    assert_eq!(a.minus(b), Vector { x: 3, y: 4 });
    assert_eq!(a.minus(b).magnitude(), 5);
    assert_eq!(Vector { x: i64::MIN, y: i64::MIN }.magnitude(), 13_043_817_825_332_782_212);
    assert_eq!(Vector { x: 1, y: 1 }.magnitude(), 1);
}

#[test]
fn directions_are_normalised_to_one_turn() {
    assert_eq!(Direction::from_microradians(0).microradians(), 0);
    assert_eq!(Direction::from_microradians(TAU).microradians(), 0);
    assert_eq!(Direction::from_microradians(TAU + 5).microradians(), 5);
    assert_eq!(Direction::from_microradians(-1).microradians(), TAU - 1);
    assert_eq!(Direction::from_microradians(-TAU).microradians(), 0);
    assert_eq!(Direction::from_microradians(-3 * TAU - 7).microradians(), TAU - 7);
    assert_eq!(
        Direction::from_microradians(i64::MAX).microradians(),
        i64::MAX % TAU
    );
    assert_eq!(
        Direction::from_microradians(i64::MIN).microradians(),
        (i64::MIN % TAU) + TAU
    );
}

#[test]
fn turning_wraps_around() {
    let east = Direction::from_microradians(0);
    assert_eq!(east.turned(-FRAC_PI_2).microradians(), TAU - FRAC_PI_2);
    assert_eq!(east.turned(FRAC_PI_2).microradians(), FRAC_PI_2);
    let almost = Direction::from_microradians(TAU - 1);
    assert_eq!(almost.turned(1).microradians(), 0);
    assert_eq!(almost.turned(i64::MAX).microradians(), ((TAU - 1) as i128 + i64::MAX as i128).rem_euclid(TAU as i128) as i64);
    assert_eq!(east.turned(i64::MIN).microradians(), (i64::MIN as i128).rem_euclid(TAU as i128) as i64);
}

#[test]
fn centering_never_jumps_by_a_turn() {
    let reference = Direction::from_microradians(100);
    // just below a full turn is just below zero when seen from near zero
    assert_eq!(Direction::from_microradians(TAU - 200).centered_at(reference), -200);
    // and the other way round
    let high = Direction::from_microradians(TAU - 100);
    assert_eq!(Direction::from_microradians(200).centered_at(high), TAU + 200);
    // nothing to do when both are close
    assert_eq!(Direction::from_microradians(300).centered_at(reference), 300);
}

#[test]
fn centering_at_half_a_turn() {
    let reference = Direction::from_microradians(0);
    // exactly half a turn ahead is taken as half a turn behind
    assert_eq!(Direction::from_microradians(PI).centered_at(reference), PI - TAU);
    assert_eq!(Direction::from_microradians(PI - 1).centered_at(reference), PI - 1);
    let opposite = Direction::from_microradians(PI);
    // exactly half a turn behind stays
    assert_eq!(Direction::from_microradians(0).centered_at(opposite), 0);
    assert_eq!(Direction::from_microradians(TAU - 1).centered_at(opposite), TAU - 1);
}
