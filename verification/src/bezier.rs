//! Cubic curves evaluated exactly on a grid of parameters.
//!
//! A curve is sampled at the parameters `k / 256` for `k` in `0 ..= 256`. At such a
//! parameter every polynomial in the control points is an integer once it is multiplied
//! by a power of 256, so positions, tangents and squared distances are computed without
//! rounding and compared exactly.
//!
//! The closest point to a position is looked for in two steps. The grid parameter whose
//! point is nearest is found by trying them all. The point itself is then moved along the
//! tangent, by at most half a grid step, to the foot of the perpendicular from the
//! position, so that the offset from the curve is measured across it and not along it.
use vstd::prelude::*;
use crate::fixed::{
    abs, clamp, div_toward_zero, is_sqrt, isqrt, lemma_sqrt_at_least, magnitude, saturate,
    sqrt_floor, trunc_div, COORD_MAX,
};
use crate::math::{Vector, lemma_product_bound};

verus! {

/// The curve parameter that stands for the end of a curve.
pub const PARAM_ONE: u32 = 256;

/// Largest magnitude of a control coordinate, in half-micrometres.
pub const CONTROL_MAX: i64 = 0x2_0000_0000;

/// Factor between a position in micrometres and an exact curve position:
/// two for the half-micrometres, times the cube of [`PARAM_ONE`].
pub const POSITION_SCALE: i64 = 0x200_0000;

/// One grid step, as the unit in which the move along the tangent is counted.
pub const SLIDE_ONE: i64 = 0x1_0000;

/// Half a grid step: the farthest the closest point moves off its grid point.
pub const SLIDE_HALF: i64 = 0x8000;

/// First factor of the curvature scale `4 * 256^3 * 10^9`.
pub const CURVATURE_STEP: i64 = 0x1_0000_0000;

/// Second factor of the curvature scale `4 * 256^3 * 10^9`.
pub const CURVATURE_GAIN: i64 = 15_625_000;

/// Bernstein weight of the first control point at grid parameter `k`, times `256^3`.
pub open spec fn weight0(k: int) -> int {
    (PARAM_ONE - k) * (PARAM_ONE - k) * (PARAM_ONE - k)
}

/// Bernstein weight of the second control point at grid parameter `k`, times `256^3`.
pub open spec fn weight1(k: int) -> int {
    3 * ((PARAM_ONE - k) * (PARAM_ONE - k) * k)
}

/// Bernstein weight of the third control point at grid parameter `k`, times `256^3`.
pub open spec fn weight2(k: int) -> int {
    3 * ((PARAM_ONE - k) * k * k)
}

/// Bernstein weight of the last control point at grid parameter `k`, times `256^3`.
pub open spec fn weight3(k: int) -> int {
    k * k * k
}

/// The cubic through the control values `a0 .. a3` at grid parameter `k`, times `256^3`.
pub open spec fn cubic_blend(k: int, a0: int, a1: int, a2: int, a3: int) -> int {
    weight0(k) * a0 + weight1(k) * a1 + weight2(k) * a2 + weight3(k) * a3
}

/// The quadratic through `d0 .. d2` at grid parameter `k`, times `256^2`.
pub open spec fn quadratic_blend(k: int, d0: int, d1: int, d2: int) -> int {
    (PARAM_ONE - k) * (PARAM_ONE - k) * d0 + 2 * ((PARAM_ONE - k) * k) * d1 + k * k * d2
}

/// The line through `e0` and `e1` at grid parameter `k`, times `256`.
pub open spec fn linear_blend(k: int, e0: int, e1: int) -> int {
    (PARAM_ONE - k) * e0 + k * e1
}

/// The four cubic weights are non-negative and sum to `256^3`.
pub proof fn lemma_weights(k: int)
    requires
        0 <= k <= PARAM_ONE,
    ensures
        0 <= weight0(k),
        0 <= weight1(k),
        0 <= weight2(k),
        0 <= weight3(k),
        weight0(k) + weight1(k) + weight2(k) + weight3(k) == 0x100_0000,
{
    let n = PARAM_ONE - k;
    assert(0 <= n * n * n && 0 <= n * n * k && 0 <= n * k * k && 0 <= k * k * k)
        by (nonlinear_arith)
        requires
            0 <= n,
            0 <= k,
    ;
    assert(n * n * n + 3 * (n * n * k) + 3 * (n * k * k) + k * k * k == (n + k) * (n + k) * (n
        + k)) by (nonlinear_arith);
    assert((n + k) * (n + k) * (n + k) == 0x100_0000) by (nonlinear_arith)
        requires
            n + k == 256,
    ;
}

/// A weight times a bounded value is bounded by the weight times the bound.
pub proof fn lemma_weighted_bound(weight: int, value: int, limit: int)
    by (nonlinear_arith)
    requires
        0 <= weight,
        abs(value) <= limit,
    ensures
        -(weight * limit) <= weight * value <= weight * limit,
{
}

/// A cubic blend of bounded control values stays within the bound: the curve lies in the
/// box spanned by its control points.
pub proof fn lemma_cubic_blend_bound(k: int, a0: int, a1: int, a2: int, a3: int, limit: int)
    requires
        0 <= k <= PARAM_ONE,
        abs(a0) <= limit,
        abs(a1) <= limit,
        abs(a2) <= limit,
        abs(a3) <= limit,
    ensures
        abs(cubic_blend(k, a0, a1, a2, a3)) <= 0x100_0000 * limit,
{
    lemma_weights(k);
    lemma_weighted_bound(weight0(k), a0, limit);
    lemma_weighted_bound(weight1(k), a1, limit);
    lemma_weighted_bound(weight2(k), a2, limit);
    lemma_weighted_bound(weight3(k), a3, limit);
    assert(weight0(k) * limit + weight1(k) * limit + weight2(k) * limit + weight3(k) * limit == (
    weight0(k) + weight1(k) + weight2(k) + weight3(k)) * limit) by (nonlinear_arith);
}

/// A cubic curve given by its four control points.
///
/// The coordinates count half-micrometres, so that the midpoint of two positions given in
/// micrometres is a control point without rounding.
#[derive(Clone, Copy, Debug, PartialEq, Eq, Structural)]
pub struct Bezier3 {
    pub start: Vector,
    pub ctrl0: Vector,
    pub ctrl1: Vector,
    pub end: Vector,
}

impl Bezier3 {
    /// Every control coordinate is small enough for the curve to be evaluated.
    pub open spec fn wf(self) -> bool {
        &&& self.start.bounded(CONTROL_MAX as int)
        &&& self.ctrl0.bounded(CONTROL_MAX as int)
        &&& self.ctrl1.bounded(CONTROL_MAX as int)
        &&& self.end.bounded(CONTROL_MAX as int)
    }

    /// Exact x coordinate at grid parameter `k`, times [`POSITION_SCALE`].
    pub open spec fn exact_x(self, k: int) -> int {
        cubic_blend(k, self.start.x as int, self.ctrl0.x as int, self.ctrl1.x as int,
            self.end.x as int)
    }

    /// Exact y coordinate at grid parameter `k`, times [`POSITION_SCALE`].
    pub open spec fn exact_y(self, k: int) -> int {
        cubic_blend(k, self.start.y as int, self.ctrl0.y as int, self.ctrl1.y as int,
            self.end.y as int)
    }

    /// Squared distance from `m` (micrometres) to the curve at grid parameter `k`, times the
    /// square of [`POSITION_SCALE`].
    pub open spec fn distance_squared(self, m: Vector, k: int) -> int {
        (POSITION_SCALE * m.x - self.exact_x(k)) * (POSITION_SCALE * m.x - self.exact_x(k)) + (
        POSITION_SCALE * m.y - self.exact_y(k)) * (POSITION_SCALE * m.y - self.exact_y(k))
    }

    /// `k` is the first grid parameter at which the curve comes closest to `m`.
    pub open spec fn is_closest(self, m: Vector, k: int) -> bool {
        &&& 0 <= k <= PARAM_ONE
        &&& forall|j: int|
            0 <= j <= PARAM_ONE ==> self.distance_squared(m, k) <= #[trigger] self.distance_squared(
                m,
                j,
            )
        &&& forall|j: int|
            0 <= j < k ==> self.distance_squared(m, k) < #[trigger] self.distance_squared(m, j)
    }

    /// The first grid parameter at which the curve comes closest to `m`.
    pub open spec fn closest_parameter(self, m: Vector) -> int {
        choose|k: int| self.is_closest(m, k)
    }

    /// The tangent at grid parameter `k`: the derivative of the curve in half-micrometres,
    /// times `256^2 / 3`. Only its direction matters to callers.
    pub open spec fn spec_derivative(self, k: int) -> Vector {
        Vector {
            x: quadratic_blend(
                k,
                self.ctrl0.x - self.start.x,
                self.ctrl1.x - self.ctrl0.x,
                self.end.x - self.ctrl1.x,
            ) as i64,
            y: quadratic_blend(
                k,
                self.ctrl0.y - self.start.y,
                self.ctrl1.y - self.ctrl0.y,
                self.end.y - self.ctrl1.y,
            ) as i64,
        }
    }

    /// The bend at grid parameter `k`: the second derivative of the curve in
    /// half-micrometres, times `256 / 6`.
    pub open spec fn spec_bend(self, k: int) -> Vector {
        Vector {
            x: linear_blend(
                k,
                self.ctrl1.x - 2 * self.ctrl0.x + self.start.x,
                self.end.x - 2 * self.ctrl1.x + self.ctrl0.x,
            ) as i64,
            y: linear_blend(
                k,
                self.ctrl1.y - 2 * self.ctrl0.y + self.start.y,
                self.end.y - 2 * self.ctrl1.y + self.ctrl0.y,
            ) as i64,
        }
    }

    /// Magnitude of the curvature at grid parameter `k` in microradians per millimetre,
    /// before it is saturated.
    ///
    /// With tangent `d`, bend `b` and `m` the rounded-down length of `d`, this is
    /// `4 * 256^3 * 10^9 * |cross(d, b)| / (3 * |d|^2 * m)`, taken in two divisions that
    /// each round down. It is zero where the tangent vanishes.
    pub open spec fn curvature_size(self, k: int) -> int {
        let tangent = self.spec_derivative(k);
        let turn = tangent.spec_cross(self.spec_bend(k));
        let length = isqrt(tangent.norm_squared());
        if tangent.norm_squared() == 0 {
            0
        } else {
            ((abs(turn) * CURVATURE_STEP) / length) * CURVATURE_GAIN / (3
                * tangent.norm_squared())
        }
    }

    /// Signed curvature at grid parameter `k` in microradians per millimetre; positive
    /// where the curve turns counter-clockwise.
    pub open spec fn spec_curvature(self, k: int) -> int {
        if self.spec_derivative(k).spec_cross(self.spec_bend(k)) < 0 {
            clamp(-self.curvature_size(k))
        } else {
            clamp(self.curvature_size(k))
        }
    }

    /// How far the closest point lies from the grid point `k` along the tangent, in
    /// fractions of [`SLIDE_ONE`] of a grid step: the foot of the perpendicular from `m`
    /// on the tangent line, kept within half a step of the grid point and within the
    /// curve. One grid step is three times the tangent of [`Bezier3::spec_derivative`].
    pub open spec fn spec_slide(self, m: Vector, k: int) -> int {
        let tangent = self.spec_derivative(k);
        let along = (POSITION_SCALE * m.x - self.exact_x(k)) * tangent.x + (POSITION_SCALE * m.y
            - self.exact_y(k)) * tangent.y;
        let raw = trunc_div(along * SLIDE_ONE, 3 * tangent.norm_squared());
        let low = if k == 0 {
            0
        } else {
            -SLIDE_HALF
        };
        let high = if k == PARAM_ONE {
            0
        } else {
            SLIDE_HALF as int
        };
        if raw < low {
            low
        } else if raw > high {
            high
        } else {
            raw
        }
    }

    /// The point of the curve closest to `m` near grid parameter `k`, in micrometres
    /// rounded toward zero: the grid point moved along the tangent by
    /// [`Bezier3::spec_slide`].
    pub open spec fn spec_foot(self, m: Vector, k: int) -> Vector {
        let tangent = self.spec_derivative(k);
        let slide = self.spec_slide(m, k);
        Vector {
            x: trunc_div(
                self.exact_x(k) + trunc_div(3 * tangent.x * slide, SLIDE_ONE as int),
                POSITION_SCALE as int,
            ) as i64,
            y: trunc_div(
                self.exact_y(k) + trunc_div(3 * tangent.y * slide, SLIDE_ONE as int),
                POSITION_SCALE as int,
            ) as i64,
        }
    }

    /// The first grid parameter up to `n` at which the curve comes closest to `m`.
    pub proof fn lemma_first_minimum(self, m: Vector, n: int) -> (k: int)
        requires
            0 <= n <= PARAM_ONE,
        ensures
            0 <= k <= n,
            forall|j: int|
                0 <= j <= n ==> self.distance_squared(m, k) <= #[trigger] self.distance_squared(
                    m,
                    j,
                ),
            forall|j: int|
                0 <= j < k ==> self.distance_squared(m, k) < #[trigger] self.distance_squared(m, j),
        decreases n,
    {
        if n == 0 {
            0
        } else {
            let before = self.lemma_first_minimum(m, n - 1);
            if self.distance_squared(m, n) < self.distance_squared(m, before) {
                n
            } else {
                before
            }
        }
    }

    /// Every position has a closest grid parameter on every curve.
    pub proof fn lemma_closest_exists(self, m: Vector)
        ensures
            self.is_closest(m, self.closest_parameter(m)),
    {
        let k = self.lemma_first_minimum(m, PARAM_ONE as int);
        assert(self.is_closest(m, k));
    }

    /// At most one parameter is the first closest one.
    pub proof fn lemma_closest_unique(self, m: Vector, k1: int, k2: int)
        requires
            self.is_closest(m, k1),
            self.is_closest(m, k2),
        ensures
            k1 == k2,
    {
        let d1 = self.distance_squared(m, k1);
        let d2 = self.distance_squared(m, k2);
        assert(d1 <= d2 && d2 <= d1);
    }
}

/// Computes the four cubic weights at grid parameter `k`.
fn cubic_weights(k: u32) -> (w: (i128, i128, i128, i128))
    requires
        k <= PARAM_ONE,
    ensures
        w.0 == weight0(k as int),
        w.1 == weight1(k as int),
        w.2 == weight2(k as int),
        w.3 == weight3(k as int),
{
    let n: i128 = (PARAM_ONE - k) as i128;
    let k: i128 = k as i128;
    proof {
        lemma_product_bound(n as int, n as int, 256, 256);
        lemma_product_bound(n as int, k as int, 256, 256);
        lemma_product_bound(k as int, k as int, 256, 256);
        lemma_product_bound(n * n, n as int, 65536, 256);
        lemma_product_bound(n * n, k as int, 65536, 256);
        lemma_product_bound(n * k, k as int, 65536, 256);
        lemma_product_bound(k * k, k as int, 65536, 256);
    }
    (n * n * n, 3 * (n * n * k), 3 * (n * k * k), k * k * k)
}

/// Blends four control values with the given cubic weights.
fn blend(k: Ghost<int>, w: (i128, i128, i128, i128), a0: i64, a1: i64, a2: i64, a3: i64) -> (b:
    i128)
    requires
        0 <= k@ <= PARAM_ONE,
        w.0 == weight0(k@),
        w.1 == weight1(k@),
        w.2 == weight2(k@),
        w.3 == weight3(k@),
        abs(a0 as int) <= CONTROL_MAX,
        abs(a1 as int) <= CONTROL_MAX,
        abs(a2 as int) <= CONTROL_MAX,
        abs(a3 as int) <= CONTROL_MAX,
    ensures
        b == cubic_blend(k@, a0 as int, a1 as int, a2 as int, a3 as int),
        abs(b as int) <= 0x100_0000 * CONTROL_MAX,
{
    proof {
        lemma_weights(k@);
        lemma_weighted_bound(w.0 as int, a0 as int, CONTROL_MAX as int);
        lemma_weighted_bound(w.1 as int, a1 as int, CONTROL_MAX as int);
        lemma_weighted_bound(w.2 as int, a2 as int, CONTROL_MAX as int);
        lemma_weighted_bound(w.3 as int, a3 as int, CONTROL_MAX as int);
        lemma_weighted_bound(CONTROL_MAX as int, w.0 as int, 0x100_0000);
        lemma_weighted_bound(CONTROL_MAX as int, w.1 as int, 0x100_0000);
        lemma_weighted_bound(CONTROL_MAX as int, w.2 as int, 0x100_0000);
        lemma_weighted_bound(CONTROL_MAX as int, w.3 as int, 0x100_0000);
        assert(w.0 * CONTROL_MAX == CONTROL_MAX * w.0) by (nonlinear_arith);
        assert(w.1 * CONTROL_MAX == CONTROL_MAX * w.1) by (nonlinear_arith);
        assert(w.2 * CONTROL_MAX == CONTROL_MAX * w.2) by (nonlinear_arith);
        assert(w.3 * CONTROL_MAX == CONTROL_MAX * w.3) by (nonlinear_arith);
        lemma_cubic_blend_bound(k@, a0 as int, a1 as int, a2 as int, a3 as int, CONTROL_MAX as int);
    }
    w.0 * (a0 as i128) + w.1 * (a1 as i128) + w.2 * (a2 as i128) + w.3 * (a3 as i128)
}

/// A curve runs from its first control point to its last: parameter zero is the entry
/// and [`PARAM_ONE`] the exit. There the tangent points from the first control point to
/// the second, and from the third to the last.
pub proof fn lemma_curve_ends(curve: Bezier3)
    requires
        curve.wf(),
    ensures
        curve.exact_x(0) == 0x100_0000 * curve.start.x,
        curve.exact_y(0) == 0x100_0000 * curve.start.y,
        curve.exact_x(PARAM_ONE as int) == 0x100_0000 * curve.end.x,
        curve.exact_y(PARAM_ONE as int) == 0x100_0000 * curve.end.y,
        curve.spec_derivative(0).x == 0x1_0000 * (curve.ctrl0.x - curve.start.x),
        curve.spec_derivative(0).y == 0x1_0000 * (curve.ctrl0.y - curve.start.y),
        curve.spec_derivative(PARAM_ONE as int).x == 0x1_0000 * (curve.end.x - curve.ctrl1.x),
        curve.spec_derivative(PARAM_ONE as int).y == 0x1_0000 * (curve.end.y - curve.ctrl1.y),
{
    assert(weight0(0) == 0x100_0000 && weight1(0) == 0 && weight2(0) == 0 && weight3(0) == 0)
        by (nonlinear_arith)
        requires
            PARAM_ONE == 256,
    ;
    assert(weight0(256) == 0 && weight1(256) == 0 && weight2(256) == 0 && weight3(256)
        == 0x100_0000) by (nonlinear_arith)
        requires
            PARAM_ONE == 256,
    ;
    let from_x = curve.ctrl0.x - curve.start.x;
    let from_y = curve.ctrl0.y - curve.start.y;
    let mid_x = curve.ctrl1.x - curve.ctrl0.x;
    let mid_y = curve.ctrl1.y - curve.ctrl0.y;
    let to_x = curve.end.x - curve.ctrl1.x;
    let to_y = curve.end.y - curve.ctrl1.y;
    assert(quadratic_blend(0, from_x, mid_x, to_x) == 0x1_0000 * from_x) by (nonlinear_arith)
        requires
            quadratic_blend(0, from_x, mid_x, to_x) == (256 - 0) * (256 - 0) * from_x + 2 * ((256
                - 0) * 0) * mid_x + 0 * 0 * to_x,
    ;
    assert(quadratic_blend(0, from_y, mid_y, to_y) == 0x1_0000 * from_y) by (nonlinear_arith)
        requires
            quadratic_blend(0, from_y, mid_y, to_y) == (256 - 0) * (256 - 0) * from_y + 2 * ((256
                - 0) * 0) * mid_y + 0 * 0 * to_y,
    ;
    assert(quadratic_blend(256, from_x, mid_x, to_x) == 0x1_0000 * to_x) by (nonlinear_arith)
        requires
            quadratic_blend(256, from_x, mid_x, to_x) == (256 - 256) * (256 - 256) * from_x + 2 * (
            (256 - 256) * 256) * mid_x + 256 * 256 * to_x,
    ;
    assert(quadratic_blend(256, from_y, mid_y, to_y) == 0x1_0000 * to_y) by (nonlinear_arith)
        requires
            quadratic_blend(256, from_y, mid_y, to_y) == (256 - 256) * (256 - 256) * from_y + 2 * (
            (256 - 256) * 256) * mid_y + 256 * 256 * to_y,
    ;
}

/// The two divisions of the curvature lose little: the size never exceeds the quotient of
/// `4 * 256^3 * 10^9 * |cross(d, b)|` by `3 * |d|^2 * m`, and falls short of it by less
/// than two where three times the squared length of the tangent is at least
/// [`CURVATURE_GAIN`].
pub proof fn lemma_curvature_accuracy(curve: Bezier3, k: int)
    requires
        curve.spec_derivative(k).norm_squared() != 0,
    ensures
        ({
            let tangent = curve.spec_derivative(k);
            let turn = abs(tangent.spec_cross(curve.spec_bend(k)));
            let squared = tangent.norm_squared();
            let length = isqrt(squared);
            let size = curve.curvature_size(k);
            let scale = CURVATURE_STEP * CURVATURE_GAIN;
            &&& size * (3 * squared * length) <= turn * scale
            &&& turn * scale < (size + 1) * (3 * squared * length) + length * CURVATURE_GAIN
            &&& 3 * squared >= CURVATURE_GAIN ==> turn * scale < (size + 2) * (3 * squared
                * length)
        }),
{
    let tangent = curve.spec_derivative(k);
    let turn = abs(tangent.spec_cross(curve.spec_bend(k)));
    let squared = tangent.norm_squared();
    assert(squared > 0) by (nonlinear_arith)
        requires
            squared == tangent.x * tangent.x + tangent.y * tangent.y,
            squared != 0,
    ;
    crate::fixed::lemma_isqrt(squared);
    lemma_sqrt_at_least(squared, isqrt(squared), 1);
    let length = isqrt(squared);
    let top = turn * CURVATURE_STEP;
    let step = top / length;
    let size = step * CURVATURE_GAIN / (3 * squared);
    assert(curve.curvature_size(k) == size);
    lemma_floor(top, length);
    lemma_floor(step * CURVATURE_GAIN, 3 * squared);
    assert(size * (3 * squared * length) <= turn * (CURVATURE_STEP * CURVATURE_GAIN)
        && turn * (CURVATURE_STEP * CURVATURE_GAIN) < (size + 1) * (3 * squared * length) + length
        * CURVATURE_GAIN) by (nonlinear_arith)
        requires
            length >= 1,
            squared >= 1,
            CURVATURE_GAIN == 15_625_000,
            top == turn * CURVATURE_STEP,
            length * step <= top < length * step + length,
            (3 * squared) * size <= step * CURVATURE_GAIN < (3 * squared) * size + 3 * squared,
    ;
    if 3 * squared >= CURVATURE_GAIN {
        assert(length * CURVATURE_GAIN <= 3 * squared * length) by (nonlinear_arith)
            requires
                3 * squared >= CURVATURE_GAIN,
                length >= 1,
        ;
        assert((size + 1) * (3 * squared * length) + 3 * squared * length == (size + 2) * (3
            * squared * length)) by (nonlinear_arith);
    }
}

/// A quotient rounded down is within one divisor of the dividend.
proof fn lemma_floor(dividend: int, divisor: int)
    by (nonlinear_arith)
    requires
        0 < divisor,
    ensures
        divisor * (dividend / divisor) <= dividend < divisor * (dividend / divisor) + divisor,
{
}

/// The curvature has the sign of the turn: it is never negative where the bend points to
/// the left of the tangent, never positive where it points to the right, and zero where
/// the two are parallel.
pub proof fn lemma_curvature_sign(curve: Bezier3, k: int)
    ensures
        curve.spec_derivative(k).spec_cross(curve.spec_bend(k)) >= 0 ==> curve.spec_curvature(k)
            >= 0,
        curve.spec_derivative(k).spec_cross(curve.spec_bend(k)) <= 0 ==> curve.spec_curvature(k)
            <= 0,
{
    let tangent = curve.spec_derivative(k);
    let turn = tangent.spec_cross(curve.spec_bend(k));
    let squared = tangent.norm_squared();
    if squared != 0 {
        lemma_curvature_accuracy(curve, k);
        let length = isqrt(squared);
        let size = curve.curvature_size(k);
        assert(squared > 0) by (nonlinear_arith)
            requires
                squared == tangent.x * tangent.x + tangent.y * tangent.y,
                squared != 0,
        ;
        crate::fixed::lemma_isqrt(squared);
        lemma_sqrt_at_least(squared, length, 1);
        let step = (abs(turn) * CURVATURE_STEP) / length;
        assert(step >= 0) by (nonlinear_arith)
            requires
                step == (abs(turn) * CURVATURE_STEP) / length,
                abs(turn) >= 0,
                CURVATURE_STEP == 0x1_0000_0000,
                length >= 1,
        ;
        assert(step * CURVATURE_GAIN / (3 * squared) >= 0) by (nonlinear_arith)
            requires
                step >= 0,
                CURVATURE_GAIN == 15_625_000,
                squared > 0,
        ;
        if turn == 0 {
            assert(size * (3 * squared * length) <= 0 * (CURVATURE_STEP * CURVATURE_GAIN));
            assert(size <= 0) by (nonlinear_arith)
                requires
                    size * (3 * squared * length) <= 0,
                    squared > 0,
                    length >= 1,
            ;
        }
    }
}

/// The cross product of a tangent with a bend is bounded by the length of the tangent
/// times the spread of the bend.
proof fn lemma_turn_bound(tangent: Vector, bend: Vector, length: int)
    requires
        is_sqrt(tangent.norm_squared(), length),
    ensures
        abs(tangent.spec_cross(bend)) <= length * (abs(bend.x as int) + abs(bend.y as int)),
{
    let ax = abs(tangent.x as int);
    let ay = abs(tangent.y as int);
    assert(ax * ax <= tangent.norm_squared() && ay * ay <= tangent.norm_squared())
        by (nonlinear_arith)
        requires
            ax == abs(tangent.x as int),
            ay == abs(tangent.y as int),
            tangent.norm_squared() == tangent.x * tangent.x + tangent.y * tangent.y,
    ;
    lemma_sqrt_at_least(tangent.norm_squared(), length, ax);
    lemma_sqrt_at_least(tangent.norm_squared(), length, ay);
    lemma_product_bound(tangent.x as int, bend.y as int, length, abs(bend.y as int));
    lemma_product_bound(tangent.y as int, bend.x as int, length, abs(bend.x as int));
    assert(length * abs(bend.y as int) + length * abs(bend.x as int) == length * (abs(
        bend.x as int,
    ) + abs(bend.y as int))) by (nonlinear_arith);
}

/// Squared length of the vector `(dx, dy)`.
fn squared_length(dx: i128, dy: i128) -> (d: u128)
    requires
        abs(dx as int) <= 0x800_0000_0000_0000,
        abs(dy as int) <= 0x800_0000_0000_0000,
    ensures
        d == dx * dx + dy * dy,
{
    let mx: u128 = magnitude(dx);
    let my: u128 = magnitude(dy);
    proof {
        lemma_product_bound(mx as int, mx as int, 0x800_0000_0000_0000, 0x800_0000_0000_0000);
        lemma_product_bound(my as int, my as int, 0x800_0000_0000_0000, 0x800_0000_0000_0000);
        assert(0x800_0000_0000_0000int * 0x800_0000_0000_0000int
            == 0x40_0000_0000_0000_0000_0000_0000_0000int) by (nonlinear_arith);
        assert(mx * mx == dx * dx) by (nonlinear_arith)
            requires
                mx == abs(dx as int),
        ;
        assert(my * my == dy * dy) by (nonlinear_arith)
            requires
                my == abs(dy as int),
        ;
    }
    mx * mx + my * my
}

/// Blends three differences of control values with the quadratic weights at `k`.
fn quadratic(k: u32, d0: i128, d1: i128, d2: i128) -> (q: i128)
    requires
        k <= PARAM_ONE,
        abs(d0 as int) <= 2 * CONTROL_MAX,
        abs(d1 as int) <= 2 * CONTROL_MAX,
        abs(d2 as int) <= 2 * CONTROL_MAX,
    ensures
        q == quadratic_blend(k as int, d0 as int, d1 as int, d2 as int),
        abs(q as int) <= 0x1_0000 * (2 * CONTROL_MAX),
{
    let n: i128 = (PARAM_ONE - k) as i128;
    let k: i128 = k as i128;
    proof {
        lemma_product_bound(n as int, n as int, 256, 256);
        lemma_product_bound(n as int, k as int, 256, 256);
        lemma_product_bound(k as int, k as int, 256, 256);
        assert(0 <= n * n && 0 <= n * k && 0 <= k * k) by (nonlinear_arith)
            requires
                0 <= n,
                0 <= k,
        ;
        assert(n * n + 2 * (n * k) + k * k == (n + k) * (n + k)) by (nonlinear_arith);
        assert((n + k) * (n + k) == 0x1_0000) by (nonlinear_arith)
            requires
                n + k == 256,
        ;
        let limit = 2 * CONTROL_MAX;
        lemma_weighted_bound(n * n, d0 as int, limit);
        lemma_weighted_bound(2 * (n * k), d1 as int, limit);
        lemma_weighted_bound(k * k, d2 as int, limit);
        assert((n * n) * limit + (2 * (n * k)) * limit + (k * k) * limit == (n * n + 2 * (n * k) + k
            * k) * limit) by (nonlinear_arith);
        lemma_weighted_bound(limit, n * n, 0x1_0000);
        lemma_weighted_bound(limit, 2 * (n * k), 0x1_0000);
        lemma_weighted_bound(limit, k * k, 0x1_0000);
        assert((n * n) * limit == limit * (n * n)) by (nonlinear_arith);
        assert((2 * (n * k)) * limit == limit * (2 * (n * k))) by (nonlinear_arith);
        assert((k * k) * limit == limit * (k * k)) by (nonlinear_arith);
    }
    n * n * d0 + 2 * (n * k) * d1 + k * k * d2
}

/// Blends two second differences of control values with the linear weights at `k`.
fn linear(k: u32, e0: i128, e1: i128) -> (l: i128)
    requires
        k <= PARAM_ONE,
        abs(e0 as int) <= 4 * CONTROL_MAX,
        abs(e1 as int) <= 4 * CONTROL_MAX,
    ensures
        l == linear_blend(k as int, e0 as int, e1 as int),
        abs(l as int) <= 0x100 * (4 * CONTROL_MAX),
{
    let n: i128 = (PARAM_ONE - k) as i128;
    let k: i128 = k as i128;
    proof {
        let limit = 4 * CONTROL_MAX;
        lemma_weighted_bound(n as int, e0 as int, limit);
        lemma_weighted_bound(k as int, e1 as int, limit);
        assert(n * limit + k * limit == (n + k) * limit) by (nonlinear_arith);
        lemma_weighted_bound(limit, n as int, 0x100);
        lemma_weighted_bound(limit, k as int, 0x100);
        assert(n * limit == limit * n) by (nonlinear_arith);
        assert(k * limit == limit * k) by (nonlinear_arith);
    }
    n * e0 + k * e1
}

impl Bezier3 {
    /// The tangent at grid parameter `t`, scaled as [`Bezier3::spec_derivative`] says.
    pub fn derivative(&self, t: u32) -> (tangent: Vector)
        requires
            self.wf(),
            t <= PARAM_ONE,
        ensures
            tangent == self.spec_derivative(t as int),
            tangent.bounded(0x1_0000 * (2 * CONTROL_MAX)),
    {
        let x = quadratic(
            t,
            self.ctrl0.x as i128 - self.start.x as i128,
            self.ctrl1.x as i128 - self.ctrl0.x as i128,
            self.end.x as i128 - self.ctrl1.x as i128,
        );
        let y = quadratic(
            t,
            self.ctrl0.y as i128 - self.start.y as i128,
            self.ctrl1.y as i128 - self.ctrl0.y as i128,
            self.end.y as i128 - self.ctrl1.y as i128,
        );
        Vector { x: x as i64, y: y as i64 }
    }

    /// The bend at grid parameter `t`, scaled as [`Bezier3::spec_bend`] says.
    fn bend(&self, t: u32) -> (bend: Vector)
        requires
            self.wf(),
            t <= PARAM_ONE,
        ensures
            bend == self.spec_bend(t as int),
            bend.bounded(0x100 * (4 * CONTROL_MAX)),
    {
        let x = linear(
            t,
            self.ctrl1.x as i128 - 2 * (self.ctrl0.x as i128) + self.start.x as i128,
            self.end.x as i128 - 2 * (self.ctrl1.x as i128) + self.ctrl0.x as i128,
        );
        let y = linear(
            t,
            self.ctrl1.y as i128 - 2 * (self.ctrl0.y as i128) + self.start.y as i128,
            self.end.y as i128 - 2 * (self.ctrl1.y as i128) + self.ctrl0.y as i128,
        );
        Vector { x: x as i64, y: y as i64 }
    }

    /// Signed curvature at grid parameter `t` in microradians per millimetre.
    pub fn curvature(&self, t: u32) -> (curvature: i64)
        requires
            self.wf(),
            t <= PARAM_ONE,
        ensures
            curvature == self.spec_curvature(t as int),
    {
        let tangent = self.derivative(t);
        let bend = self.bend(t);
        let turn: i128 = tangent.cross(bend);
        let squared: u128 = squared_length(tangent.x as i128, tangent.y as i128);
        proof {
            lemma_product_bound(
                tangent.x as int,
                tangent.x as int,
                0x4_0000_0000_0000,
                0x4_0000_0000_0000,
            );
            lemma_product_bound(
                tangent.y as int,
                tangent.y as int,
                0x4_0000_0000_0000,
                0x4_0000_0000_0000,
            );
            assert(0x4_0000_0000_0000int * 0x4_0000_0000_0000int
                == 0x10_0000_0000_0000_0000_0000_0000int) by (nonlinear_arith);
        }
        if squared == 0 {
            return 0;
        }
        let length: u64 = sqrt_floor(squared);
        let size: u128 = magnitude(turn);
        proof {
            lemma_turn_bound(tangent, bend, length as int);
            lemma_sqrt_at_least(squared as int, length as int, 1);
            crate::math::lemma_magnitude_bound(tangent, length as int, 0x4_0000_0000_0000);
            let spread = abs(bend.x as int) + abs(bend.y as int);
            assert(size * CURVATURE_STEP <= (length * spread) * CURVATURE_STEP
                <= 0x8_0000_0000_0000 * 0x1000_0000_0000 * 0x1_0000_0000) by (nonlinear_arith)
                requires
                    size <= length * spread,
                    0 <= spread <= 0x1000_0000_0000,
                    0 <= length <= 0x8_0000_0000_0000,
                    CURVATURE_STEP == 0x1_0000_0000,
                    0 <= size,
            ;
            assert((size * CURVATURE_STEP) / (length as int) <= spread * CURVATURE_STEP)
                by (nonlinear_arith)
                requires
                    size * CURVATURE_STEP <= (length * spread) * CURVATURE_STEP,
                    length >= 1,
            ;
            assert(spread * CURVATURE_STEP <= 0x1000_0000_0000 * 0x1_0000_0000)
                by (nonlinear_arith)
                requires
                    0 <= spread <= 0x1000_0000_0000,
                    CURVATURE_STEP == 0x1_0000_0000,
            ;
        }
        let step: u128 = size * (CURVATURE_STEP as u128) / (length as u128);
        proof {
            assert(step * CURVATURE_GAIN <= 0x1000_0000_0000_0000_0000 * 15_625_000)
                by (nonlinear_arith)
                requires
                    0 <= step <= 0x1000_0000_0000_0000_0000,
                    CURVATURE_GAIN == 15_625_000,
            ;
        }
        let scaled: u128 = step * (CURVATURE_GAIN as u128) / (3 * squared);
        proof {
            assert(scaled <= step * CURVATURE_GAIN) by (nonlinear_arith)
                requires
                    scaled == (step * CURVATURE_GAIN) / (3 * squared),
                    squared >= 1,
                    0 <= step * CURVATURE_GAIN,
            ;
        }
        if turn < 0 {
            saturate(-(scaled as i128))
        } else {
            saturate(scaled as i128)
        }
    }

    /// Exact position at grid parameter `k`, times [`POSITION_SCALE`].
    fn exact(&self, k: u32) -> (b: (i128, i128))
        requires
            self.wf(),
            k <= PARAM_ONE,
        ensures
            b.0 == self.exact_x(k as int),
            b.1 == self.exact_y(k as int),
            abs(b.0 as int) <= 0x100_0000 * CONTROL_MAX,
            abs(b.1 as int) <= 0x100_0000 * CONTROL_MAX,
    {
        let w = cubic_weights(k);
        let bx = blend(Ghost(k as int), w, self.start.x, self.ctrl0.x, self.ctrl1.x, self.end.x);
        let by = blend(Ghost(k as int), w, self.start.y, self.ctrl0.y, self.ctrl1.y, self.end.y);
        (bx, by)
    }

    /// Exact squared distance from `m` to the curve at grid parameter `k`.
    fn exact_distance(&self, m: Vector, k: u32) -> (r: (u128, i128, i128))
        requires
            self.wf(),
            m.in_range(),
            k <= PARAM_ONE,
        ensures
            r.0 == self.distance_squared(m, k as int),
            r.1 == self.exact_x(k as int),
            r.2 == self.exact_y(k as int),
            abs(r.1 as int) <= 0x100_0000 * CONTROL_MAX,
            abs(r.2 as int) <= 0x100_0000 * CONTROL_MAX,
    {
        let (bx, by) = self.exact(k);
        proof {
            lemma_product_bound(POSITION_SCALE as int, m.x as int, 0x200_0000, COORD_MAX as int);
            lemma_product_bound(POSITION_SCALE as int, m.y as int, 0x200_0000, COORD_MAX as int);
        }
        let sx: i128 = (POSITION_SCALE as i128) * (m.x as i128);
        let sy: i128 = (POSITION_SCALE as i128) * (m.y as i128);
        (squared_length(sx - bx, sy - by), bx, by)
    }

    /// How far the closest point lies from grid point `k` along `tangent`.
    fn slide(&self, m: Vector, k: u32, exact_x: i128, exact_y: i128, tangent: Vector) -> (slide:
        i128)
        requires
            self.wf(),
            m.in_range(),
            k <= PARAM_ONE,
            exact_x == self.exact_x(k as int),
            exact_y == self.exact_y(k as int),
            abs(exact_x as int) <= 0x100_0000 * CONTROL_MAX,
            abs(exact_y as int) <= 0x100_0000 * CONTROL_MAX,
            tangent == self.spec_derivative(k as int),
            tangent.bounded(0x1_0000 * (2 * CONTROL_MAX)),
        ensures
            slide == self.spec_slide(m, k as int),
            -SLIDE_HALF <= slide <= SLIDE_HALF,
    {
        proof {
            lemma_product_bound(POSITION_SCALE as int, m.x as int, 0x200_0000, COORD_MAX as int);
            lemma_product_bound(POSITION_SCALE as int, m.y as int, 0x200_0000, COORD_MAX as int);
        }
        let off_x: i128 = (POSITION_SCALE as i128) * (m.x as i128) - exact_x;
        let off_y: i128 = (POSITION_SCALE as i128) * (m.y as i128) - exact_y;
        let squared: u128 = squared_length(tangent.x as i128, tangent.y as i128);
        proof {
            lemma_product_bound(
                off_x as int,
                tangent.x as int,
                0x400_0000_0000_0000,
                0x4_0000_0000_0000,
            );
            lemma_product_bound(
                off_y as int,
                tangent.y as int,
                0x400_0000_0000_0000,
                0x4_0000_0000_0000,
            );
            lemma_product_bound(
                tangent.x as int,
                tangent.x as int,
                0x4_0000_0000_0000,
                0x4_0000_0000_0000,
            );
            lemma_product_bound(
                tangent.y as int,
                tangent.y as int,
                0x4_0000_0000_0000,
                0x4_0000_0000_0000,
            );
            assert(0x400_0000_0000_0000int * 0x4_0000_0000_0000int
                == 0x1000_0000_0000_0000_0000_0000_0000int) by (nonlinear_arith);
            assert(0x4_0000_0000_0000int * 0x4_0000_0000_0000int
                == 0x10_0000_0000_0000_0000_0000_0000int) by (nonlinear_arith);
        }
        let along: i128 = off_x * (tangent.x as i128) + off_y * (tangent.y as i128);
        proof {
            lemma_product_bound(
                along as int,
                SLIDE_ONE as int,
                0x2000_0000_0000_0000_0000_0000_0000,
                0x1_0000,
            );
        }
        let raw: i128 = if squared == 0 {
            0
        } else {
            div_toward_zero(along * (SLIDE_ONE as i128), (3 * squared) as i128)
        };
        let low: i128 = if k == 0 {
            0
        } else {
            -(SLIDE_HALF as i128)
        };
        let high: i128 = if k == PARAM_ONE {
            0
        } else {
            SLIDE_HALF as i128
        };
        if raw < low {
            low
        } else if raw > high {
            high
        } else {
            raw
        }
    }

    /// One coordinate of the closest point: the grid point moved along the tangent.
    fn foot(exact: i128, tangent: i64, slide: i128) -> (coordinate: i64)
        requires
            abs(exact as int) <= 0x100_0000 * CONTROL_MAX,
            abs(tangent as int) <= 0x1_0000 * (2 * CONTROL_MAX),
            -SLIDE_HALF <= slide <= SLIDE_HALF,
        ensures
            coordinate == trunc_div(
                exact + trunc_div(3 * tangent * slide, SLIDE_ONE as int),
                POSITION_SCALE as int,
            ),
            abs(coordinate as int) <= 4 * COORD_MAX,
    {
        proof {
            lemma_product_bound(3 * tangent, slide as int, 0xc_0000_0000_0000, 0x8000);
        }
        let product: i128 = 3 * (tangent as i128) * slide;
        let step: i128 = div_toward_zero(product, SLIDE_ONE as i128);
        proof {
            assert(abs(step as int) <= 0xc_0000_0000_0000int / 2) by (nonlinear_arith)
                requires
                    abs(step as int) == abs(product as int) / (SLIDE_ONE as int),
                    abs(product as int) <= 0xc_0000_0000_0000int * 0x8000int,
                    SLIDE_ONE == 0x1_0000,
            ;
        }
        let moved: i128 = exact + step;
        let coordinate: i128 = div_toward_zero(moved, POSITION_SCALE as i128);
        proof {
            assert(abs(coordinate as int) <= 4 * COORD_MAX) by (nonlinear_arith)
                requires
                    abs(coordinate as int) == abs(moved as int) / (POSITION_SCALE as int),
                    abs(moved as int) <= 0x100_0000 * CONTROL_MAX + 0xc_0000_0000_0000int / 2,
                    POSITION_SCALE == 0x200_0000,
                    CONTROL_MAX == 0x2_0000_0000,
                    COORD_MAX == 0x8000_0000,
            ;
        }
        coordinate as i64
    }

    /// Finds the point of the curve closest to `m` and the first grid parameter that is
    /// nearest to `m`. The parameter [`PARAM_ONE`] reports that `m` is level with the end
    /// of the curve or past it.
    pub fn closest_point(&self, m: Vector) -> (found: (u32, Vector))
        requires
            self.wf(),
            m.in_range(),
        ensures
            self.is_closest(m, found.0 as int),
            found.0 == self.closest_parameter(m),
            found.1 == self.spec_foot(m, found.0 as int),
            found.1.bounded(4 * COORD_MAX),
    {
        let first = self.exact_distance(m, 0);
        let mut best: u32 = 0;
        let mut best_distance: u128 = first.0;
        let mut best_x: i128 = first.1;
        let mut best_y: i128 = first.2;
        let mut k: u32 = 1;
        while k <= PARAM_ONE
            invariant
                self.wf(),
                m.in_range(),
                1 <= k <= PARAM_ONE + 1,
                best < k,
                best_distance == self.distance_squared(m, best as int),
                best_x == self.exact_x(best as int),
                best_y == self.exact_y(best as int),
                abs(best_x as int) <= 0x100_0000 * CONTROL_MAX,
                abs(best_y as int) <= 0x100_0000 * CONTROL_MAX,
                forall|j: int|
                    0 <= j < k ==> best_distance <= #[trigger] self.distance_squared(m, j),
                forall|j: int|
                    0 <= j < best ==> best_distance < #[trigger] self.distance_squared(m, j),
            decreases PARAM_ONE + 1 - k,
        {
            let here = self.exact_distance(m, k);
            if here.0 < best_distance {
                best = k;
                best_distance = here.0;
                best_x = here.1;
                best_y = here.2;
            }
            k = k + 1;
        }
        proof {
            assert(self.is_closest(m, best as int));
            self.lemma_closest_unique(m, best as int, self.closest_parameter(m));
        }
        let tangent = self.derivative(best);
        let slide = self.slide(m, best, best_x, best_y, tangent);
        (
            best,
            Vector {
                x: Self::foot(best_x, tangent.x, slide),
                y: Self::foot(best_y, tangent.y, slide),
            },
        )
    }
}

} // verus!
