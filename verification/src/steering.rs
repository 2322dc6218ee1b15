//! The correction laws: how far off the path becomes how hard to steer back.
//!
//! Two laws are offered. The geometric law aims the vehicle along an s-curve of the
//! distance from the path and asks for the curvature that turns it there within one tick.
//! The feedback law runs the distance through a proportional, integral and derivative
//! term. Either is switched off by setting its strength or gains to zero.
use vstd::prelude::*;
use crate::fixed::{clamp, div_toward_zero, saturate, trunc_div, FRAC_PI_2, MICRO, PI, TAU};
use crate::math::{lemma_product_bound, Direction};

verus! {

/// Micrometres in a millimetre.
pub const MILLI: i64 = 1_000;

/// How the distance from the path is corrected.
#[derive(Clone, Copy, Debug, PartialEq, Eq, Structural)]
pub enum Correction {
    /// Aim along an s-curve of the distance. `offset_p` is how sharply the aim turns
    /// toward the path, in thousandths per millimetre of distance.
    Geometric { offset_p: i32 },
    /// Feed the distance through a controller with these gains, each in microradians per
    /// millimetre of curvature for one millimetre of error.
    Feedback { p: i32, i: i32, d: i32 },
}

impl Default for Correction {
    fn default() -> (correction: Correction)
        ensures
            correction == (Correction::Geometric { offset_p: 0 }),
    {
        Correction::Geometric { offset_p: 0 }
    }
}

/// The exponent of the s-curve in millionths: the strength times the distance.
pub open spec fn spec_exponent(offset_p: int, distance: int) -> int {
    clamp(offset_p * distance)
}

/// The exponent of the s-curve for a vehicle `distance` micrometres from the path.
pub fn exponent(offset_p: i32, distance: i64) -> (x: i64)
    ensures
        x == spec_exponent(offset_p as int, distance as int),
{
    proof {
        lemma_product_bound(
            offset_p as int,
            distance as int,
            0x8000_0000,
            0x8000_0000_0000_0000,
        );
    }
    saturate((offset_p as i128) * (distance as i128))
}

/// On the path the exponent is zero, whatever the strength.
pub proof fn lemma_exponent_on_path(offset_p: int)
    ensures
        spec_exponent(offset_p, 0) == 0,
{
    assert(offset_p * 0 == 0) by (nonlinear_arith);
}

/// For a positive strength the exponent rises with the distance: farther to the left of
/// the path never gives a smaller exponent.
pub proof fn lemma_exponent_monotone(offset_p: int, near: int, far: int)
    requires
        0 < offset_p,
        near <= far,
    ensures
        spec_exponent(offset_p, near) <= spec_exponent(offset_p, far),
{
    assert(offset_p * near <= offset_p * far) by (nonlinear_arith)
        requires
            0 < offset_p,
            near <= far,
    ;
}

/// The s-curve, as a function of `growth`, the exponential of the exponent in millionths:
/// `PI / (1 + growth) - PI / 2`.
///
/// It is a quarter turn to the left for a growth of zero, which is a vehicle far to the
/// right of the path; nothing for a growth of one, which is a vehicle on the path; and it
/// falls toward a quarter turn to the right as the growth rises.
pub open spec fn spec_angle_offset(growth: int) -> int {
    (PI * MICRO) / (MICRO + growth) - FRAC_PI_2
}

/// How far to aim off the tangent of the path, in microradians, for a growth in
/// millionths.
pub fn angle_offset(growth: u64) -> (offset: i64)
    ensures
        offset == spec_angle_offset(growth as int),
        -FRAC_PI_2 <= offset <= FRAC_PI_2,
{
    let denominator: u128 = MICRO as u128 + growth as u128;
    let quotient: u128 = (PI as u128 * MICRO as u128) / denominator;
    proof {
        lemma_angle_offset_bounded(growth as int);
    }
    quotient as i64 - FRAC_PI_2
}

/// The s-curve never leaves the quarter turns.
pub proof fn lemma_angle_offset_bounded(growth: int)
    requires
        0 <= growth,
    ensures
        -FRAC_PI_2 <= spec_angle_offset(growth) <= FRAC_PI_2,
{
    let q = (PI * MICRO) / (MICRO + growth);
    assert(0 <= q <= PI) by (nonlinear_arith)
        requires
            q == (PI * MICRO) / (MICRO + growth),
            0 <= growth,
            MICRO == 1_000_000,
            PI == 3_141_592,
    ;
}

/// On the path the s-curve aims along the tangent: a growth of one gives no offset.
pub proof fn lemma_angle_offset_on_path()
    ensures
        spec_angle_offset(MICRO as int) == 0,
{
}

/// Between a growth of one millionth and a growth of `PI - 1` the s-curve stays strictly
/// inside the quarter turns.
pub proof fn lemma_angle_offset_strict(growth: int)
    requires
        1 <= growth <= (PI - 1) * MICRO,
    ensures
        -FRAC_PI_2 < spec_angle_offset(growth) < FRAC_PI_2,
{
    let q = (PI * MICRO) / (MICRO + growth);
    assert(1 <= q < PI) by (nonlinear_arith)
        requires
            q == (PI * MICRO) / (MICRO + growth),
            1 <= growth <= (PI - 1) * MICRO,
            MICRO == 1_000_000,
            PI == 3_141_592,
    ;
}

/// The s-curve never rises: a larger growth gives an offset that is no larger.
pub proof fn lemma_angle_offset_monotone(low: int, high: int)
    requires
        0 <= low <= high,
    ensures
        spec_angle_offset(high) <= spec_angle_offset(low),
{
    assert((PI * MICRO) / (MICRO + high) <= (PI * MICRO) / (MICRO + low)) by (nonlinear_arith)
        requires
            0 <= low <= high,
            MICRO == 1_000_000,
            PI == 3_141_592,
    ;
}

/// While the growth is at most 772 453 millionths, the s-curve falls strictly: a larger
/// growth gives a smaller offset.
pub proof fn lemma_angle_offset_strictly_monotone(low: int, high: int)
    requires
        0 <= low < high <= 772_453,
    ensures
        spec_angle_offset(high) < spec_angle_offset(low),
{
    let a = PI * MICRO;
    let b = MICRO + low;
    let c = MICRO + high;
    let q = a / c;
    assert(a == 3_141_592_000_000);
    assert((q + 1) * b <= a) by (nonlinear_arith)
        requires
            q == a / c,
            a == 3_141_592_000_000,
            1_000_000 <= b < c <= 1_772_453,
    ;
    assert(a / b >= q + 1) by (nonlinear_arith)
        requires
            (q + 1) * b <= a,
            b > 0,
    ;
}

/// The curvature that turns the vehicle by `offset_direction` microradians while it
/// travels `projected_distance` micrometres, in microradians per millimetre: the angle
/// over the arc length. Nothing where no travel is expected.
pub open spec fn spec_adjust_curvature(offset_direction: int, projected_distance: int) -> int {
    if projected_distance == 0 {
        0
    } else {
        trunc_div(MILLI * offset_direction, projected_distance)
    }
}

/// What the geometric law works out in one tick.
#[derive(Clone, Copy, Debug, PartialEq, Eq, Structural)]
pub struct Aim {
    /// Where the vehicle should point: the tangent of the path turned by the s-curve.
    pub adjust_direction: Direction,
    /// The heading of the vehicle on the branch nearest `adjust_direction`.
    pub centered_direction: i64,
    /// How far the vehicle has to turn, in microradians.
    pub offset_direction: i64,
    /// How far the vehicle is expected to travel until the next tick, in micrometres.
    pub projected_distance: i64,
    /// The curvature that makes the turn within that travel.
    pub adjust_curvature: i64,
}

/// Works out the geometric correction.
///
/// `tangent` is the direction of the path at the closest point and `growth` the
/// exponential of the exponent of the s-curve in millionths. `heading` is where the
/// vehicle points, `elapsed` the time since the last tick and `velocity` the speed in
/// micrometres per unit of time.
pub fn aim(tangent: Direction, growth: u64, heading: Direction, elapsed: u32, velocity: i32) -> (aim:
    Aim)
    ensures
        aim.adjust_direction@ == (tangent@ + spec_angle_offset(growth as int)) % TAU as int,
        aim.centered_direction == heading.spec_centered_at(aim.adjust_direction),
        aim.offset_direction == aim.adjust_direction@ - aim.centered_direction,
        -PI < aim.offset_direction <= PI,
        aim.projected_distance == elapsed * velocity,
        aim.adjust_curvature == spec_adjust_curvature(
            aim.offset_direction as int,
            aim.projected_distance as int,
        ),
{
    let adjust_direction = tangent.turned(angle_offset(growth));
    proof {
        lemma_product_bound(elapsed as int, velocity as int, 0xffff_ffff, 0x8000_0000);
        assert(0xffff_ffffint * 0x8000_0000int == 0x7fff_ffff_8000_0000int) by (nonlinear_arith);
    }
    let projected_distance: i64 = (elapsed as i64) * (velocity as i64);
    let centered_direction = heading.centered_at(adjust_direction);
    let offset_direction: i64 = adjust_direction.microradians() - centered_direction;
    proof {
        lemma_product_bound(MILLI as int, offset_direction as int, 1_000, PI as int);
    }
    let adjust_curvature: i64 = if projected_distance == 0 {
        0
    } else {
        div_toward_zero(
            (MILLI as i128) * (offset_direction as i128),
            projected_distance as i128,
        ) as i64
    };
    Aim {
        adjust_direction,
        centered_direction,
        offset_direction,
        projected_distance,
        adjust_curvature,
    }
}

/// What the feedback law remembers from tick to tick.
#[derive(Clone, Copy, Debug, PartialEq, Eq, Structural)]
pub struct FeedbackState {
    /// Sum of the errors of all ticks so far, saturated.
    pub integral: i64,
    /// Error of the tick before.
    pub previous_error: i64,
}

/// The error the feedback law sees: the distance the vehicle has to move to the left to
/// be on the path.
pub open spec fn spec_error(distance: int) -> int {
    clamp(-distance)
}

/// The state of the feedback law after a tick with the given distance from the path.
pub open spec fn spec_feedback_state(state: FeedbackState, distance: int) -> FeedbackState {
    FeedbackState {
        integral: clamp(state.integral + spec_error(distance)) as i64,
        previous_error: spec_error(distance) as i64,
    }
}

/// The output of the feedback law in microradians per millimetre: the proportional term
/// on the error, the integral term on the sum of the errors up to this tick and the
/// derivative term on the change of the error since the tick before.
pub open spec fn spec_feedback(p: int, i: int, d: int, state: FeedbackState, distance: int) -> int {
    let error = spec_error(distance);
    let integral = clamp(state.integral + error);
    clamp(trunc_div(p * error + i * integral + d * (error - state.previous_error), MILLI as int))
}

impl FeedbackState {
    /// The state at the start of a mission: nothing summed, no error before.
    pub fn new() -> (state: FeedbackState)
        ensures
            state == (FeedbackState { integral: 0, previous_error: 0 }),
    {
        FeedbackState { integral: 0, previous_error: 0 }
    }

    /// Forgets what was summed, for a new mission.
    pub fn reset(&mut self)
        ensures
            *final(self) == (FeedbackState { integral: 0, previous_error: 0 }),
    {
        self.integral = 0;
        self.previous_error = 0;
    }

    /// Runs one tick of the feedback law with the gains of this tick and returns the
    /// curvature to add.
    pub fn step(&mut self, p: i32, i: i32, d: i32, distance: i64) -> (adjust_curvature: i64)
        ensures
            *final(self) == spec_feedback_state(*old(self), distance as int),
            adjust_curvature == spec_feedback(
                p as int,
                i as int,
                d as int,
                *old(self),
                distance as int,
            ),
    {
        let error: i64 = saturate(-(distance as i128));
        let integral: i64 = saturate(self.integral as i128 + error as i128);
        let change: i128 = error as i128 - self.previous_error as i128;
        proof {
            lemma_product_bound(p as int, error as int, 0x8000_0000, 0x8000_0000_0000_0000);
            lemma_product_bound(i as int, integral as int, 0x8000_0000, 0x8000_0000_0000_0000);
            lemma_product_bound(d as int, change as int, 0x8000_0000, 0x1_0000_0000_0000_0000);
        }
        let sum: i128 = (p as i128) * (error as i128) + (i as i128) * (integral as i128) + (
        d as i128) * change;
        self.integral = integral;
        self.previous_error = error;
        saturate(div_toward_zero(sum, MILLI as i128))
    }
}

} // verus!
