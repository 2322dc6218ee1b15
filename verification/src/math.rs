//! Plane vectors and headings.
use vstd::prelude::*;
use crate::fixed::{abs, is_sqrt, isqrt, sqrt_floor, lemma_sqrt_bound, COORD_MAX, PI, TAU};

verus! {

/// Largest component magnitude for which vector arithmetic stays inside the machine types.
pub const VECTOR_MAX: i64 = 0x2000_0000_0000_0000;

/// A point or displacement in the plane.
#[derive(Clone, Copy, Debug, Default, PartialEq, Eq, Structural)]
pub struct Vector {
    pub x: i64,
    pub y: i64,
}

impl Vector {
    /// Both components have magnitude at most `limit`.
    pub open spec fn bounded(self, limit: int) -> bool {
        abs(self.x as int) <= limit && abs(self.y as int) <= limit
    }

    /// The vector is a position the geometry accepts.
    pub open spec fn in_range(self) -> bool {
        self.bounded(COORD_MAX as int)
    }

    /// The vector can take part in vector arithmetic.
    pub open spec fn fits(self) -> bool {
        self.bounded(VECTOR_MAX as int)
    }

    /// Scalar cross product: the z component of the three-dimensional cross product.
    pub open spec fn spec_cross(self, other: Vector) -> int {
        self.x * other.y - self.y * other.x
    }

    /// Squared Euclidean length.
    pub open spec fn norm_squared(self) -> int {
        self.x * self.x + self.y * self.y
    }

    /// Component-wise difference `self - other`.
    pub fn minus(self, other: Vector) -> (difference: Vector)
        requires
            self.fits(),
            other.fits(),
        ensures
            difference.x == self.x - other.x,
            difference.y == self.y - other.y,
    {
        Vector { x: self.x - other.x, y: self.y - other.y }
    }

    /// Scalar cross product with `other`; positive when `other` points to the left of `self`.
    pub fn cross(self, other: Vector) -> (product: i128)
        requires
            self.fits(),
            other.fits(),
        ensures
            product == self.spec_cross(other),
    {
        let ax: i128 = self.x as i128;
        let ay: i128 = self.y as i128;
        let bx: i128 = other.x as i128;
        let by: i128 = other.y as i128;
        proof {
            lemma_product_bound(ax as int, by as int, VECTOR_MAX as int, VECTOR_MAX as int);
            lemma_product_bound(ay as int, bx as int, VECTOR_MAX as int, VECTOR_MAX as int);
            assert(VECTOR_MAX * VECTOR_MAX == 0x400_0000_0000_0000_0000_0000_0000_0000int)
                by (nonlinear_arith);
        }
        ax * by - ay * bx
    }

    /// Euclidean length, rounded down.
    pub fn magnitude(self) -> (length: u64)
        ensures
            is_sqrt(self.norm_squared(), length as int),
            length == isqrt(self.norm_squared()),
    {
        let mx: u128 = crate::fixed::magnitude(self.x as i128);
        let my: u128 = crate::fixed::magnitude(self.y as i128);
        proof {
            lemma_product_bound(mx as int, mx as int, 0x8000_0000_0000_0000, 0x8000_0000_0000_0000);
            lemma_product_bound(my as int, my as int, 0x8000_0000_0000_0000, 0x8000_0000_0000_0000);
            assert(0x8000_0000_0000_0000int * 0x8000_0000_0000_0000int
                == 0x4000_0000_0000_0000_0000_0000_0000_0000int) by (nonlinear_arith);
            assert(mx * mx == self.x * self.x) by (nonlinear_arith)
                requires
                    mx == abs(self.x as int),
            ;
            assert(my * my == self.y * self.y) by (nonlinear_arith)
                requires
                    my == abs(self.y as int),
            ;
        }
        sqrt_floor(mx * mx + my * my)
    }
}

/// A product is bounded by the product of the bounds of its factors.
pub proof fn lemma_product_bound(a: int, b: int, bound_a: int, bound_b: int)
    by (nonlinear_arith)
    requires
        abs(a) <= bound_a,
        abs(b) <= bound_b,
    ensures
        abs(a * b) <= bound_a * bound_b,
        -(bound_a * bound_b) <= a * b <= bound_a * bound_b,
{
}

/// The length of a vector is bounded by the sum of the magnitudes of its components.
pub proof fn lemma_magnitude_bound(v: Vector, length: int, limit: int)
    requires
        is_sqrt(v.norm_squared(), length),
        v.bounded(limit),
    ensures
        length <= 2 * limit,
{
    let ax = abs(v.x as int);
    let ay = abs(v.y as int);
    assert(v.norm_squared() <= (2 * limit) * (2 * limit)) by (nonlinear_arith)
        requires
            v.norm_squared() == v.x * v.x + v.y * v.y,
            ax == abs(v.x as int),
            ay == abs(v.y as int),
            ax <= limit,
            ay <= limit,
    ;
    lemma_sqrt_bound(v.norm_squared(), length, 2 * limit);
}

/// Reduces an angle to its representative in `0 .. TAU`.
fn wrap_turn(angle: i128) -> (wrapped: i64)
    requires
        -0x1_0000_0000_0000_0000 <= angle <= 0x1_0000_0000_0000_0000,
    ensures
        wrapped == angle as int % TAU as int,
        0 <= wrapped < TAU,
{
    let turn: i128 = TAU as i128;
    assert(turn == 6_283_184);
    if angle >= 0 {
        (angle % turn) as i64
    } else {
        // the remainder of the angle turned around, taken back from a full turn
        let back: i128 = (-angle) % turn;
        assert(angle as int % 6_283_184 == if back == 0 {
            0
        } else {
            6_283_184 - back
        }) by {
            let quotient = (-angle) / 6_283_184;
            assert(-angle == 6_283_184 * quotient + back);
            if back == 0 {
                assert(angle == 6_283_184 * (-quotient));
            } else {
                assert(angle == 6_283_184 * (-quotient - 1) + (6_283_184 - back));
            }
        }
        if back == 0 {
            0
        } else {
            (turn - back) as i64
        }
    }
}

/// The angle `angle` moved by whole turns onto the branch nearest `reference`, for two
/// angles within one turn: the result differs from `reference` by at least `-PI` and
/// less than `PI`.
pub open spec fn centered(angle: int, reference: int) -> int {
    let difference = angle - reference;
    if difference >= PI {
        angle - TAU
    } else if difference < -PI {
        angle + TAU
    } else {
        angle
    }
}

/// A heading, kept as an angle in microradians normalised to one turn.
///
/// Counter-clockwise is positive.
#[derive(Clone, Copy, Debug, PartialEq, Eq, Structural)]
pub struct Direction {
    angle: i64,
}

impl Default for Direction {
    /// The heading along the x axis.
    fn default() -> (direction: Direction)
        ensures
            direction@ == 0,
    {
        Direction { angle: 0 }
    }
}

impl Direction {
    #[verifier::type_invariant]
    spec fn normalised(self) -> bool {
        0 <= self.angle < TAU
    }

    /// The angle in microradians, in `0 .. TAU`.
    pub closed spec fn view(self) -> int {
        self.angle as int
    }

    /// The heading of an angle given in microradians, on any branch.
    pub fn from_microradians(angle: i64) -> (direction: Direction)
        ensures
            direction@ == angle as int % TAU as int,
    {
        Direction { angle: wrap_turn(angle as i128) }
    }

    /// The angle in microradians, in `0 .. TAU`.
    pub fn microradians(&self) -> (angle: i64)
        ensures
            angle == self@,
            0 <= angle < TAU,
    {
        proof {
            use_type_invariant(self);
        }
        self.angle
    }

    /// This heading turned by `offset` microradians.
    pub fn turned(&self, offset: i64) -> (direction: Direction)
        ensures
            direction@ == (self@ + offset) % TAU as int,
    {
        Direction { angle: wrap_turn(self.angle as i128 + offset as i128) }
    }

    /// This heading's angle on the branch nearest `reference`.
    pub open spec fn spec_centered_at(self, reference: Direction) -> int {
        centered(self@, reference@)
    }

    /// Expresses this heading on the branch nearest `reference`, so that the difference of
    /// the two never jumps by a full turn.
    pub fn centered_at(&self, reference: Direction) -> (angle: i64)
        ensures
            angle == self.spec_centered_at(reference),
            (angle - self@) % TAU as int == 0,
            -PI <= angle - reference@ < PI,
    {
        proof {
            use_type_invariant(self);
            use_type_invariant(&reference);
        }
        let difference: i64 = self.angle - reference.angle;
        if difference >= PI {
            self.angle - TAU
        } else if difference < -PI {
            self.angle + TAU
        } else {
            self.angle
        }
    }
}

/// Where the vehicle is and where it points.
#[derive(Clone, Copy, Debug, Default, PartialEq, Eq, Structural)]
pub struct Orientation {
    pub position: Vector,
    pub direction: Direction,
}

} // verus!
