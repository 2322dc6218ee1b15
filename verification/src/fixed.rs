//! Fixed-point conventions and the integer helpers the rest of the crate is built on.
//!
//! Every physical quantity is an integer count of a small unit:
//!
//! | quantity                     | unit                                       |
//! |------------------------------|--------------------------------------------|
//! | length, coordinate           | micrometre                                 |
//! | control point of a curve     | half a micrometre                          |
//! | angle                        | microradian                                |
//! | curvature                    | microradian per millimetre                 |
//! | curve parameter              | 1/256 of the segment                       |
//! | speed                        | micrometre per unit of time                |
//! | strength of the s-curve      | thousandth per millimetre                  |
//! | gain of the feedback law     | microradian per millimetre, per millimetre |
//! | exponent, exponential, power | millionth                                  |
//!
//! Divisions of signed quantities round toward zero, so that mirrored inputs give
//! mirrored results, and results that leave the 64-bit range saturate instead of
//! wrapping.
use vstd::prelude::*;

verus! {

/// One, as a count of millionths.
pub const MICRO: i64 = 1_000_000;

/// A quarter turn in microradians.
pub const FRAC_PI_2: i64 = 1_570_796;

/// A half turn in microradians; exactly twice [`FRAC_PI_2`].
pub const PI: i64 = 3_141_592;

/// A full turn in microradians; exactly twice [`PI`].
pub const TAU: i64 = 6_283_184;

/// Largest magnitude a saturated result can take.
pub const LIMIT: i64 = 0x7fff_ffff_ffff_ffff;

/// Largest magnitude of a coordinate the geometry accepts, in micrometres.
pub const COORD_MAX: i64 = 0x8000_0000;

/// Absolute value of a mathematical integer.
pub open spec fn abs(x: int) -> int {
    if x < 0 {
        -x
    } else {
        x
    }
}

/// Quotient of `a` by `b` rounded toward zero; zero when `b` is zero.
pub open spec fn trunc_div(a: int, b: int) -> int {
    if b == 0 {
        0
    } else if (a < 0) == (b < 0) {
        abs(a) / abs(b)
    } else {
        -(abs(a) / abs(b))
    }
}

/// `x` saturated to the range `-LIMIT ..= LIMIT`.
pub open spec fn clamp(x: int) -> int {
    if x > LIMIT {
        LIMIT as int
    } else if x < -LIMIT {
        -LIMIT
    } else {
        x
    }
}

/// `r` is the integer square root of `n`: the largest integer whose square does not exceed `n`.
pub open spec fn is_sqrt(n: int, r: int) -> bool {
    0 <= r && r * r <= n < (r + 1) * (r + 1)
}

/// The integer square root of `n` (meaningful for `n >= 0`).
pub open spec fn isqrt(n: int) -> int {
    choose|r: int| is_sqrt(n, r)
}

/// Every non-negative integer has an integer square root, and [`isqrt`] is it.
pub proof fn lemma_isqrt(n: int)
    requires
        0 <= n,
    ensures
        is_sqrt(n, isqrt(n)),
    decreases n,
{
    if n == 0 {
        assert(is_sqrt(0, 0));
    } else {
        lemma_isqrt(n - 1);
        let r = isqrt(n - 1);
        if n < (r + 1) * (r + 1) {
            assert(is_sqrt(n, r));
        } else {
            assert((r + 2) * (r + 2) > (r + 1) * (r + 1)) by (nonlinear_arith)
                requires
                    0 <= r,
            ;
            assert(is_sqrt(n, r + 1));
        }
    }
}

/// Squaring is monotone on the non-negative integers.
pub proof fn lemma_square_monotone(a: int, b: int)
    by (nonlinear_arith)
    requires
        0 <= a <= b,
    ensures
        a * a <= b * b,
{
}

/// An integer has at most one integer square root.
pub proof fn lemma_sqrt_unique(n: int, r1: int, r2: int)
    requires
        is_sqrt(n, r1),
        is_sqrt(n, r2),
    ensures
        r1 == r2,
{
    if r1 < r2 {
        lemma_square_monotone(r1 + 1, r2);
    }
    if r2 < r1 {
        lemma_square_monotone(r2 + 1, r1);
    }
}

/// The integer square root never exceeds a bound whose square covers `n`.
pub proof fn lemma_sqrt_bound(n: int, r: int, bound: int)
    requires
        is_sqrt(n, r),
        0 <= bound,
        n <= bound * bound,
    ensures
        r <= bound,
{
    if r > bound {
        lemma_square_monotone(bound + 1, r);
        assert((bound + 1) * (bound + 1) > bound * bound) by (nonlinear_arith)
            requires
                0 <= bound,
        ;
    }
}

/// The integer square root is at least any non-negative number whose square fits under `n`.
pub proof fn lemma_sqrt_at_least(n: int, r: int, low: int)
    requires
        is_sqrt(n, r),
        0 <= low,
        low * low <= n,
    ensures
        low <= r,
{
    if low > r {
        lemma_square_monotone(r + 1, low);
    }
}

/// Magnitude of `x` as an unsigned number.
pub fn magnitude(x: i128) -> (m: u128)
    ensures
        m == abs(x as int),
{
    if x < 0 {
        if x == i128::MIN {
            0x8000_0000_0000_0000_0000_0000_0000_0000u128
        } else {
            (-x) as u128
        }
    } else {
        x as u128
    }
}

/// Saturates a wide intermediate result to 64 bits.
pub fn saturate(x: i128) -> (r: i64)
    ensures
        r == clamp(x as int),
{
    if x > LIMIT as i128 {
        LIMIT
    } else if x < -(LIMIT as i128) {
        -LIMIT
    } else {
        x as i64
    }
}

/// Divides rounding toward zero.
pub fn div_toward_zero(a: i128, b: i128) -> (q: i128)
    requires
        b != 0,
        a > i128::MIN,
    ensures
        q == trunc_div(a as int, b as int),
        abs(q as int) <= abs(a as int),
{
    let ma: u128 = magnitude(a);
    let mb: u128 = magnitude(b);
    let mq: u128 = ma / mb;
    assert(mq <= ma) by (nonlinear_arith)
        requires
            mq == ma / mb,
            mb > 0,
    ;
    if (a < 0) == (b < 0) {
        mq as i128
    } else {
        -(mq as i128)
    }
}

/// Integer square root by bisection.
pub fn sqrt_floor(n: u128) -> (r: u64)
    ensures
        is_sqrt(n as int, r as int),
        r == isqrt(n as int),
{
    let mut low: u128 = 0;
    let mut high: u128 = 0x1_0000_0000_0000_0000;
    assert(0x1_0000_0000_0000_0000int * 0x1_0000_0000_0000_0000int
        == 0x1_0000_0000_0000_0000_0000_0000_0000_0000int) by (nonlinear_arith);
    while high - low > 1
        invariant
            low < high <= 0x1_0000_0000_0000_0000,
            low * low <= n < high * high,
        decreases high - low,
    {
        let mid: u128 = low + (high - low) / 2;
        assert(mid * mid < 0x1_0000_0000_0000_0000_0000_0000_0000_0000) by (nonlinear_arith)
            requires
                mid < 0x1_0000_0000_0000_0000,
        ;
        if mid * mid <= n {
            low = mid;
        } else {
            high = mid;
        }
    }
    proof {
        assert(high == low + 1);
        assert(is_sqrt(n as int, low as int));
        lemma_sqrt_unique(n as int, low as int, isqrt(n as int));
    }
    low as u64
}

} // verus!
