//! Following a path made of segments.
//!
//! A [`Segment`] is one piece of a larger path. A [`Path`] stacks the segments that remain
//! and, tick by tick, turns the pose of the vehicle into a curvature to steer and a speed
//! to drive.
use vstd::prelude::*;
use crate::bezier::{Bezier3, CONTROL_MAX, PARAM_ONE};
use crate::buffer::{capacity, PathBuf, CAPACITY};
use crate::fixed::{
    abs, clamp, div_toward_zero, isqrt, saturate, trunc_div, COORD_MAX, LIMIT, MICRO, TAU,
};
use crate::math::{centered, lemma_product_bound, Direction, Orientation, Vector};
use crate::steering::{
    aim, exponent, spec_adjust_curvature, spec_angle_offset, spec_exponent, spec_feedback,
    spec_feedback_state, Correction, FeedbackState,
};

verus! {

/// Factor between the product of a curvature and a distance and a plain number:
/// microradians per millimetre times micrometres.
pub const NANO: i64 = 1_000_000_000;

/// Twice `v`, component by component: a position in half-micrometres.
pub open spec fn doubled(v: Vector) -> Vector {
    Vector { x: (2 * v.x) as i64, y: (2 * v.y) as i64 }
}

/// The sum of `a` and `b`: twice their midpoint.
pub open spec fn summed(a: Vector, b: Vector) -> Vector {
    Vector { x: (a.x + b.x) as i64, y: (a.y + b.y) as i64 }
}

/// One coordinate of the arm of a corner, in half-micrometres: `radius` micrometres along
/// a direction whose coordinate is `unit` millionths.
pub open spec fn arm(radius: int, unit: int) -> int {
    trunc_div(2 * radius * unit, MICRO as int)
}

/// The control points of the straight line from `start` to `end`.
pub open spec fn line_curve(start: Vector, end: Vector) -> Bezier3 {
    Bezier3 {
        start: doubled(start),
        ctrl0: summed(start, end),
        ctrl1: summed(start, end),
        end: doubled(end),
    }
}

/// The control points of the corner at `center` that is entered along `entry` and left
/// along `exit`, each arm `radius` long.
pub open spec fn corner_curve(center: Vector, entry: Vector, exit: Vector, radius: i64) -> Bezier3 {
    Bezier3 {
        start: Vector {
            x: (2 * center.x - arm(radius as int, entry.x as int)) as i64,
            y: (2 * center.y - arm(radius as int, entry.y as int)) as i64,
        },
        ctrl0: doubled(center),
        ctrl1: doubled(center),
        end: Vector {
            x: (2 * center.x + arm(radius as int, exit.x as int)) as i64,
            y: (2 * center.y + arm(radius as int, exit.y as int)) as i64,
        },
    }
}

/// A straight line has no curvature anywhere: at every grid parameter the curvature of
/// the line between two positions is exactly zero.
pub proof fn lemma_line_is_straight(start: Vector, end: Vector, t: int)
    requires
        start.in_range(),
        end.in_range(),
        0 <= t <= PARAM_ONE,
    ensures
        line_curve(start, end).spec_curvature(t) == 0,
{
    let curve = line_curve(start, end);
    let vx = end.x - start.x;
    let vy = end.y - start.y;
    let n = PARAM_ONE - t;
    let a = n * n + t * t;
    let b = t - n;
    let tangent = curve.spec_derivative(t);
    let bend = curve.spec_bend(t);
    assert(0 <= a <= 0x2_0000) by (nonlinear_arith)
        requires
            a == n * n + t * t,
            0 <= n <= 256,
            0 <= t <= 256,
    ;
    lemma_product_bound(a, vx, 0x2_0000, 2 * COORD_MAX);
    lemma_product_bound(a, vy, 0x2_0000, 2 * COORD_MAX);
    lemma_product_bound(b, vx, 0x100, 2 * COORD_MAX);
    lemma_product_bound(b, vy, 0x100, 2 * COORD_MAX);
    assert(crate::bezier::quadratic_blend(t, vx, 0, vx) == a * vx) by (nonlinear_arith)
        requires
            crate::bezier::quadratic_blend(t, vx, 0, vx) == n * n * vx + 2 * (n * t) * 0 + t * t
                * vx,
            a == n * n + t * t,
    ;
    assert(crate::bezier::quadratic_blend(t, vy, 0, vy) == a * vy) by (nonlinear_arith)
        requires
            crate::bezier::quadratic_blend(t, vy, 0, vy) == n * n * vy + 2 * (n * t) * 0 + t * t
                * vy,
            a == n * n + t * t,
    ;
    assert(crate::bezier::linear_blend(t, -vx, vx) == b * vx) by (nonlinear_arith)
        requires
            crate::bezier::linear_blend(t, -vx, vx) == n * (-vx) + t * vx,
            b == t - n,
    ;
    assert(crate::bezier::linear_blend(t, -vy, vy) == b * vy) by (nonlinear_arith)
        requires
            crate::bezier::linear_blend(t, -vy, vy) == n * (-vy) + t * vy,
            b == t - n,
    ;
    assert(tangent.x == a * vx && tangent.y == a * vy);
    assert(bend.x == b * vx && bend.y == b * vy);
    assert(tangent.spec_cross(bend) == 0) by (nonlinear_arith)
        requires
            tangent.spec_cross(bend) == (a * vx) * (b * vy) - (a * vy) * (b * vx),
    ;
    crate::bezier::lemma_curvature_sign(curve, t);
}

/// A line is complete at its end: for a vehicle at the end of a line that has a length
/// the closest parameter is [`PARAM_ONE`].
pub proof fn lemma_line_completes_at_its_end(start: Vector, end: Vector)
    requires
        start.in_range(),
        end.in_range(),
        start != end,
    ensures
        line_curve(start, end).closest_parameter(end) == PARAM_ONE,
{
    let curve = line_curve(start, end);
    let last = PARAM_ONE as int;
    crate::bezier::lemma_curve_ends(curve);
    assert(curve.distance_squared(end, last) == 0);
    assert forall|j: int| 0 <= j < last implies 0 < #[trigger] curve.distance_squared(end, j) by {
        crate::bezier::lemma_weights(j);
        let w0 = crate::bezier::weight0(j);
        let w1 = crate::bezier::weight1(j);
        let w2 = crate::bezier::weight2(j);
        let w3 = crate::bezier::weight3(j);
        let pull = 2 * w0 + w1 + w2;
        assert(w0 > 0) by (nonlinear_arith)
            requires
                w0 == (256 - j) * (256 - j) * (256 - j),
                j < 256,
        ;
        let dx = crate::bezier::POSITION_SCALE * end.x - curve.exact_x(j);
        let dy = crate::bezier::POSITION_SCALE * end.y - curve.exact_y(j);
        assert(dx == pull * (end.x - start.x)) by (nonlinear_arith)
            requires
                dx == 0x200_0000 * end.x - (w0 * (2 * start.x) + w1 * (start.x + end.x) + w2 * (
                start.x + end.x) + w3 * (2 * end.x)),
                w0 + w1 + w2 + w3 == 0x100_0000,
                pull == 2 * w0 + w1 + w2,
        ;
        assert(dy == pull * (end.y - start.y)) by (nonlinear_arith)
            requires
                dy == 0x200_0000 * end.y - (w0 * (2 * start.y) + w1 * (start.y + end.y) + w2 * (
                start.y + end.y) + w3 * (2 * end.y)),
                w0 + w1 + w2 + w3 == 0x100_0000,
                pull == 2 * w0 + w1 + w2,
        ;
        assert(dx * dx + dy * dy > 0) by (nonlinear_arith)
            requires
                dx == pull * (end.x - start.x),
                dy == pull * (end.y - start.y),
                pull > 0,
                end.x != start.x || end.y != start.y,
        ;
    }
    assert forall|j: int| 0 <= j <= last implies curve.distance_squared(end, last)
        <= #[trigger] curve.distance_squared(end, j) by {
        if j < last {
            assert(0 < curve.distance_squared(end, j));
        }
    }
    assert(curve.is_closest(end, last));
    curve.lemma_closest_exists(end);
    curve.lemma_closest_unique(end, last, curve.closest_parameter(end));
}

/// A segment of a larger path.
///
/// The distance from the segment steers the vehicle, and the parameter of the closest
/// point tells when the segment is complete. Segments usually start where the previous
/// one ends, with the same tangent, but need not.
#[derive(Clone, Copy, Debug, PartialEq, Eq, Structural)]
pub struct Segment {
    bezier: Bezier3,
}

impl View for Segment {
    type V = Bezier3;

    closed spec fn view(&self) -> Bezier3 {
        self.bezier
    }
}

/// Computes one coordinate of the arm of a corner.
fn arm_of(radius: i64, unit: i64) -> (a: i128)
    requires
        abs(radius as int) <= COORD_MAX,
        abs(unit as int) <= MICRO,
    ensures
        a == arm(radius as int, unit as int),
        abs(a as int) <= 2 * COORD_MAX,
{
    proof {
        lemma_product_bound(2 * radius, unit as int, 2 * COORD_MAX, MICRO as int);
    }
    let product: i128 = 2 * (radius as i128) * (unit as i128);
    let a = div_toward_zero(product, MICRO as i128);
    proof {
        assert(abs(a as int) <= 2 * COORD_MAX) by (nonlinear_arith)
            requires
                abs(a as int) == abs(product as int) / (MICRO as int),
                abs(product as int) <= (2 * COORD_MAX) * MICRO,
                MICRO == 1_000_000,
        ;
    }
    a
}

/// Tells whether both coordinates of a control point are within [`CONTROL_MAX`].
fn within(point: Vector) -> (fits: bool)
    ensures
        fits == point.bounded(CONTROL_MAX as int),
{
    -CONTROL_MAX <= point.x && point.x <= CONTROL_MAX && -CONTROL_MAX <= point.y && point.y
        <= CONTROL_MAX
}

impl Segment {
    #[verifier::type_invariant]
    spec fn evaluable(self) -> bool {
        self.bezier.wf()
    }

    /// Generates a corner.
    ///
    /// `center` is where the entry line and the exit line meet. `entry` and `exit` are the
    /// unit vectors of the two lines in millionths, each pointing the way the vehicle
    /// drives. `radius` is the distance from the center to the far end of each line. The
    /// curve starts at `center - radius * entry`, ends at `center + radius * exit`, and
    /// both of its inner control points are the center.
    pub fn corner(center: Vector, entry: Vector, exit: Vector, radius: i64) -> (segment: Segment)
        requires
            center.in_range(),
            entry.bounded(MICRO as int),
            exit.bounded(MICRO as int),
            abs(radius as int) <= COORD_MAX,
        ensures
            segment@ == corner_curve(center, entry, exit, radius),
            segment@.wf(),
    {
        let cx: i128 = 2 * (center.x as i128);
        let cy: i128 = 2 * (center.y as i128);
        let middle = Vector { x: cx as i64, y: cy as i64 };
        Segment {
            bezier: Bezier3 {
                start: Vector {
                    x: (cx - arm_of(radius, entry.x)) as i64,
                    y: (cy - arm_of(radius, entry.y)) as i64,
                },
                ctrl0: middle,
                ctrl1: middle,
                end: Vector {
                    x: (cx + arm_of(radius, exit.x)) as i64,
                    y: (cy + arm_of(radius, exit.y)) as i64,
                },
            },
        }
    }

    /// Generates a straight line from `start` to `end`: both inner control points are the
    /// midpoint, so the curvature is zero everywhere.
    pub fn line(start: Vector, end: Vector) -> (segment: Segment)
        requires
            start.in_range(),
            end.in_range(),
        ensures
            segment@ == line_curve(start, end),
            segment@.wf(),
            forall|t: int| 0 <= t <= PARAM_ONE ==> #[trigger] segment@.spec_curvature(t) == 0,
    {
        proof {
            assert forall|t: int| 0 <= t <= PARAM_ONE implies #[trigger] line_curve(
                start,
                end,
            ).spec_curvature(t) == 0 by {
                lemma_line_is_straight(start, end, t);
            }
        }
        let mid = Vector { x: start.x + end.x, y: start.y + end.y };
        Segment {
            bezier: Bezier3 {
                start: Vector { x: 2 * start.x, y: 2 * start.y },
                ctrl0: mid,
                ctrl1: mid,
                end: Vector { x: 2 * end.x, y: 2 * end.y },
            },
        }
    }

    /// Rebuilds a segment from its control points in half-micrometres, as when a record
    /// is read back. Succeeds exactly when every coordinate is within [`CONTROL_MAX`].
    pub fn from_bezier(curve: Bezier3) -> (segment: Option<Segment>)
        ensures
            curve.wf() ==> segment.is_some() && segment.unwrap()@ == curve,
            !curve.wf() ==> segment.is_none(),
    {
        if within(curve.start) && within(curve.ctrl0) && within(curve.ctrl1) && within(curve.end) {
            Some(Segment { bezier: curve })
        } else {
            None
        }
    }

    /// The control points of the segment, in half-micrometres.
    pub fn bezier(&self) -> (curve: Bezier3)
        ensures
            curve == self@,
            curve.wf(),
    {
        proof {
            use_type_invariant(self);
        }
        self.bezier
    }

    /// Finds the point of the segment closest to `m` and its parameter. The parameter is
    /// not cut short of the end: [`PARAM_ONE`] says that the segment is complete.
    pub fn closest_point(&self, m: Vector) -> (found: (u32, Vector))
        requires
            m.in_range(),
        ensures
            self@.is_closest(m, found.0 as int),
            found.0 == self@.closest_parameter(m),
            found.1 == self@.spec_foot(m, found.0 as int),
            found.1.bounded(4 * COORD_MAX),
    {
        proof {
            use_type_invariant(self);
        }
        self.bezier.closest_point(m)
    }

    /// Derivative at `t`, scaled as [`Bezier3::spec_derivative`] says.
    pub fn derivative(&self, t: u32) -> (tangent: Vector)
        requires
            t <= PARAM_ONE,
        ensures
            tangent == self@.spec_derivative(t as int),
            tangent.bounded(0x1_0000 * (2 * CONTROL_MAX)),
    {
        proof {
            use_type_invariant(self);
        }
        self.bezier.derivative(t)
    }

    /// Curvature at `t` in microradians per millimetre.
    pub fn curvature(&self, t: u32) -> (curvature: i64)
        requires
            t <= PARAM_ONE,
        ensures
            curvature == self@.spec_curvature(t as int),
    {
        proof {
            use_type_invariant(self);
        }
        self.bezier.curvature(t)
    }
}

/// The curvature of the arc that runs beside an arc of curvature `curvature` at the signed
/// distance `distance`.
///
/// The path is taken for a circle of radius `1 / curvature`. The circle with the same
/// center through the vehicle has the radius less the distance where the curvature is
/// positive, and the radius plus the distance where it is negative. A straight path has no
/// such circle and gives zero. Where the vehicle sits on the center itself the result
/// saturates with the sign of the curvature.
pub open spec fn spec_offset_curvature(curvature: int, distance: int) -> int {
    let denominator = if curvature > 0 {
        NANO - curvature * distance
    } else {
        NANO + curvature * distance
    };
    if curvature == 0 {
        0
    } else if denominator == 0 {
        if curvature > 0 {
            LIMIT as int
        } else {
            -LIMIT
        }
    } else {
        clamp(trunc_div(curvature * NANO, denominator))
    }
}

/// On the path the arc beside it is the path: at no distance the curvature comes back
/// as it went in, saturated.
pub proof fn lemma_offset_curvature_on_path(curvature: int)
    ensures
        spec_offset_curvature(curvature, 0) == clamp(curvature),
{
    if curvature != 0 {
        assert(curvature * 0 == 0) by (nonlinear_arith);
        assert(abs(curvature * NANO) / abs(NANO as int) == abs(curvature)) by (nonlinear_arith)
            requires
                NANO == 1_000_000_000,
        ;
        assert((curvature * NANO < 0) == (curvature < 0)) by (nonlinear_arith)
            requires
                NANO == 1_000_000_000,
                curvature != 0,
        ;
    }
}

/// A straight path has no arc beside it: whatever the distance, the result is zero.
pub proof fn lemma_offset_curvature_straight(distance: int)
    ensures
        spec_offset_curvature(0, distance) == 0,
{
}

/// Turning the other way mirrors the result: at the same distance the opposite
/// curvature gives the opposite arc.
pub proof fn lemma_offset_curvature_odd(curvature: int, distance: int)
    ensures
        spec_offset_curvature(-curvature, distance) == -spec_offset_curvature(
            curvature,
            distance,
        ),
{
    if curvature != 0 {
        assert((-curvature) * distance == -(curvature * distance)) by (nonlinear_arith);
        assert((-curvature) * NANO == -(curvature * NANO)) by (nonlinear_arith);
        assert((curvature * NANO == 0) == (curvature == 0)) by (nonlinear_arith)
            requires
                NANO == 1_000_000_000,
        ;
    }
}

/// Adjusts the curvature of the path for the vehicle not being on it.
///
/// `curvature` is in microradians per millimetre, `distance` in micrometres and positive
/// to the left of the path.
pub fn offset_curvature(curvature: i64, distance: i64) -> (adjusted: i64)
    ensures
        adjusted == spec_offset_curvature(curvature as int, distance as int),
{
    if curvature == 0 {
        return 0;
    }
    proof {
        lemma_product_bound(
            curvature as int,
            distance as int,
            0x8000_0000_0000_0000,
            0x8000_0000_0000_0000,
        );
        assert(0x8000_0000_0000_0000int * 0x8000_0000_0000_0000int
            == 0x4000_0000_0000_0000_0000_0000_0000_0000int) by (nonlinear_arith);
        lemma_product_bound(curvature as int, NANO as int, 0x8000_0000_0000_0000, NANO as int);
    }
    let product: i128 = (curvature as i128) * (distance as i128);
    let denominator: i128 = if curvature > 0 {
        NANO as i128 - product
    } else {
        NANO as i128 + product
    };
    if denominator == 0 {
        if curvature > 0 {
            LIMIT
        } else {
            -LIMIT
        }
    } else {
        saturate(div_toward_zero((curvature as i128) * (NANO as i128), denominator))
    }
}

/// Where the vehicle is relative to the segment it follows.
#[derive(Clone, Copy, Debug, PartialEq, Eq, Structural)]
pub struct CrossTrack {
    /// Curvature of the path at the closest point, in microradians per millimetre.
    pub curvature: i64,
    /// Distance from the path in micrometres, positive to the left of it.
    pub distance: i64,
    /// Tangent of the path at the closest point; only its direction is meaningful.
    pub tangent: Vector,
}

/// What one look at the path found.
#[derive(Clone, Copy, Debug, PartialEq, Eq)]
pub struct Tracking {
    /// Parameter and position of the closest point on the segment inspected last, if any
    /// segment was inspected.
    pub closest_point: Option<(u32, Vector)>,
    /// The situation on the active segment, or nothing when no segment remains.
    pub segment_info: Option<CrossTrack>,
}

/// The vehicle at `position` has completed `segment`: its closest point is the end.
pub open spec fn is_complete(segment: Segment, position: Vector) -> bool {
    segment@.closest_parameter(position) >= PARAM_ONE
}

/// Parameter and position of the point of `segment` closest to `position`.
pub open spec fn closest_on(segment: Segment, position: Vector) -> (u32, Vector) {
    let t = segment@.closest_parameter(position);
    (t as u32, segment@.spec_foot(position, t))
}

/// The situation of a vehicle at `position` that follows `segment`.
///
/// The distance is the length of the offset from the closest point to the position. Its
/// sign is that of the cross product of the tangent with the offset: positive to the left
/// of the path, negative to the right of it and on it.
pub open spec fn cross_track(segment: Segment, position: Vector) -> CrossTrack {
    let t = segment@.closest_parameter(position);
    let tangent = segment@.spec_derivative(t);
    let projected = segment@.spec_foot(position, t);
    let offset = Vector {
        x: (position.x - projected.x) as i64,
        y: (position.y - projected.y) as i64,
    };
    let length = isqrt(offset.norm_squared());
    CrossTrack {
        curvature: segment@.spec_curvature(t) as i64,
        distance: if tangent.spec_cross(offset) > 0 {
            length as i64
        } else {
            (-length) as i64
        },
        tangent,
    }
}

/// `after` is what remains of the stack `before` once every completed segment has been
/// taken off its top: the segments taken off are all complete, and the new top is not.
pub open spec fn advanced(before: Seq<Segment>, after: Seq<Segment>, position: Vector) -> bool {
    &&& after.len() <= before.len()
    &&& after == before.take(after.len() as int)
    &&& forall|i: int| after.len() <= i < before.len() ==> is_complete(#[trigger] before[i], position)
    &&& after.len() > 0 ==> !is_complete(after.last(), position)
}

/// What a look from `position` reports of a stack that was `before` and is `after`.
pub open spec fn tracking_of(before: Seq<Segment>, after: Seq<Segment>, position: Vector)
    -> Tracking {
    Tracking {
        closest_point: if before.len() == 0 {
            None
        } else if after.len() > 0 {
            Some(closest_on(after.last(), position))
        } else {
            Some(closest_on(before[0], position))
        },
        segment_info: if after.len() > 0 {
            Some(cross_track(after.last(), position))
        } else {
            None
        },
    }
}

/// The segments that remain to be driven and the time of the last tick.
///
/// The buffer is a stack: the segment added last is the one that is followed, and
/// completed segments leave from that same end. A route of several segments is therefore
/// added with its last leg first; [`Path::add_segments`] keeps the order it is given and
/// does not turn a route around.
#[derive(Clone, Debug)]
pub struct Path {
    pub segment_buffer: PathBuf,
    pub time: u32,
    pub feedback: FeedbackState,
}

/// What a path is told to do.
#[derive(Clone, Copy, Debug, PartialEq, Eq, Structural)]
pub struct PathConfig {
    /// How the distance from the path is corrected.
    pub correction: Correction,
    /// Cruise speed in micrometres per unit of time.
    pub velocity: i32,
}

impl Default for PathConfig {
    fn default() -> (config: PathConfig)
        ensures
            config == (PathConfig { correction: Correction::Geometric { offset_p: 0 }, velocity: 0 }),
    {
        PathConfig { correction: Correction::Geometric { offset_p: 0 }, velocity: 0 }
    }
}

/// The two quantities of a tick that take trigonometry or the exponential function,
/// which the caller works out from what [`Path::track`] found.
#[derive(Clone, Copy, Debug, PartialEq, Eq, Structural)]
pub struct Bearing {
    /// The direction in which the tangent of the path points.
    pub tangent: Direction,
    /// The exponential of the exponent of the s-curve, in millionths.
    pub growth: u64,
}

/// Every quantity one tick works out, for telemetry. A field is absent when the branch
/// that works it out did not run. Nothing reads these back.
#[derive(Clone, Debug, Default, PartialEq)]
pub struct PathDebug {
    pub path: Option<PathBuf>,
    pub closest_point: Option<(u32, Vector)>,
    pub distance_from: Option<i64>,
    pub tangent_direction: Option<Direction>,
    pub adjust_direction: Option<Direction>,
    pub centered_direction: Option<i64>,
    pub offset_direction: Option<i64>,
    pub projected_distance: Option<i64>,
    pub adjust_curvature: Option<i64>,
    pub target_curvature: Option<i64>,
}

/// The angle of a direction that may be absent.
pub open spec fn angle_of(direction: Option<Direction>) -> Option<int> {
    match direction {
        Some(d) => Some(d@),
        None => None,
    }
}

/// The number in an option that may be absent.
pub open spec fn number_of(number: Option<i64>) -> Option<int> {
    match number {
        Some(n) => Some(n as int),
        None => None,
    }
}

/// What one tick works out for a vehicle that follows a segment.
pub struct Steering {
    pub adjust_direction: Option<int>,
    pub centered_direction: Option<int>,
    pub offset_direction: Option<int>,
    pub projected_distance: Option<int>,
    pub adjust_curvature: int,
    pub target_curvature: int,
    pub feedback: FeedbackState,
}

/// The steering law for a vehicle on a segment.
///
/// The target curvature is the curvature of the arc beside the path through the vehicle
/// plus the correction, saturated. The geometric correction aims at the tangent turned
/// by the s-curve and asks for the turn from the heading to that aim over the distance
/// travelled in `elapsed`; it is nothing when its strength is zero. The feedback
/// correction is the output of the feedback law, whose state moves on by one tick.
pub open spec fn steering(
    config: PathConfig,
    elapsed: int,
    heading: Direction,
    info: CrossTrack,
    bearing: Bearing,
    feedback: FeedbackState,
) -> Steering {
    let offset = spec_offset_curvature(info.curvature as int, info.distance as int);
    match config.correction {
        Correction::Geometric { offset_p } => {
            if offset_p != 0 {
                let adjust = (bearing.tangent@ + spec_angle_offset(bearing.growth as int))
                    % TAU as int;
                let turn = adjust - centered(heading@, adjust);
                let travel = elapsed * config.velocity;
                Steering {
                    adjust_direction: Some(adjust),
                    centered_direction: Some(centered(heading@, adjust)),
                    offset_direction: Some(turn),
                    projected_distance: Some(travel),
                    adjust_curvature: spec_adjust_curvature(turn, travel),
                    target_curvature: clamp(offset + spec_adjust_curvature(turn, travel)),
                    feedback,
                }
            } else {
                Steering {
                    adjust_direction: None,
                    centered_direction: None,
                    offset_direction: None,
                    projected_distance: None,
                    adjust_curvature: 0,
                    target_curvature: clamp(offset),
                    feedback,
                }
            }
        },
        Correction::Feedback { p, i, d } => {
            let adjust = spec_feedback(p as int, i as int, d as int, feedback, info.distance as int);
            Steering {
                adjust_direction: None,
                centered_direction: None,
                offset_direction: None,
                projected_distance: None,
                adjust_curvature: adjust,
                target_curvature: clamp(offset + adjust),
                feedback: spec_feedback_state(feedback, info.distance as int),
            }
        },
    }
}

/// The command of a tick: target curvature, target velocity, and whether the path is
/// done. Without a segment to follow the vehicle is told to stop and the path is done;
/// with one it cruises along the steered curvature.
pub open spec fn command_of(
    config: PathConfig,
    elapsed: int,
    heading: Direction,
    tracking: Tracking,
    bearing: Bearing,
    feedback: FeedbackState,
) -> (int, int, bool) {
    match tracking.segment_info {
        Some(info) => (
            steering(config, elapsed, heading, info, bearing, feedback).target_curvature,
            config.velocity as int,
            false,
        ),
        None => (0, 0, true),
    }
}

impl PathDebug {
    /// The record holds exactly what the steering law worked out on a segment.
    pub open spec fn records(self, info: CrossTrack, bearing: Bearing, steering: Steering) -> bool {
        &&& self.distance_from == Some(info.distance)
        &&& angle_of(self.tangent_direction) == Some(bearing.tangent@)
        &&& angle_of(self.adjust_direction) == steering.adjust_direction
        &&& number_of(self.centered_direction) == steering.centered_direction
        &&& number_of(self.offset_direction) == steering.offset_direction
        &&& number_of(self.projected_distance) == steering.projected_distance
        &&& number_of(self.adjust_curvature) == Some(steering.adjust_curvature)
        &&& number_of(self.target_curvature) == Some(steering.target_curvature)
    }

    /// The record holds nothing of a segment.
    pub open spec fn blank(self) -> bool {
        &&& self.distance_from.is_none()
        &&& self.tangent_direction.is_none()
        &&& self.adjust_direction.is_none()
        &&& self.centered_direction.is_none()
        &&& self.offset_direction.is_none()
        &&& self.projected_distance.is_none()
        &&& self.adjust_curvature.is_none()
        &&& self.target_curvature.is_none()
    }
}

impl View for Path {
    type V = Seq<Segment>;

    open spec fn view(&self) -> Seq<Segment> {
        self.segment_buffer@
    }
}

impl Path {
    /// A path with nothing to follow, whose last tick was at `time`.
    pub fn new(_config: &PathConfig, time: u32) -> (path: Path)
        ensures
            path@ == Seq::<Segment>::empty(),
            path.time == time,
            path.feedback == (FeedbackState { integral: 0, previous_error: 0 }),
    {
        Path { segment_buffer: PathBuf::new(), time, feedback: FeedbackState::new() }
    }

    /// Adds `segments` to the top of the buffer in the order given, stopping at the first
    /// that does not fit. Returns the number of free places that remain, or the index of
    /// the first segment that was not added; the segments before it stay added.
    pub fn add_segments(&mut self, segments: &[Segment]) -> (result: Result<usize, usize>)
        ensures
            final(self).time == old(self).time,
            final(self).feedback == old(self).feedback,
            final(self)@.len() <= CAPACITY,
            old(self)@.len() + segments@.len() <= CAPACITY ==> final(self)@ == old(self)@
                + segments@ && result == Ok::<usize, usize>(
                (CAPACITY - old(self)@.len() - segments@.len()) as usize,
            ),
            old(self)@.len() + segments@.len() > CAPACITY ==> final(self)@ == old(self)@
                + segments@.take(CAPACITY - old(self)@.len()) && result == Err::<usize, usize>(
                (CAPACITY - old(self)@.len()) as usize,
            ),
            old(self)@.len() == CAPACITY && segments@.len() > 0 ==> final(self)@ == old(self)@
                && result == Err::<usize, usize>(0),
    {
        let ghost before = self@;
        let mut free: usize = capacity() - self.segment_buffer.len();
        proof {
            assert(before + segments@.take(0) == before);
        }
        let mut i: usize = 0;
        while i < segments.len()
            invariant
                self.time == old(self).time,
                self.feedback == old(self).feedback,
                before == old(self)@,
                i <= segments@.len(),
                free == CAPACITY - before.len() - i,
                self@ == before + segments@.take(i as int),
            decreases segments@.len() - i,
        {
            if !self.segment_buffer.push(segments[i]) {
                return Err(i);
            }
            proof {
                assert(segments@.take(i as int).push(segments@[i as int]) == segments@.take(
                    i as int + 1,
                ));
                assert((before + segments@.take(i as int)).push(segments@[i as int]) == before
                    + segments@.take(i as int + 1));
            }
            free = free - 1;
            i = i + 1;
        }
        proof {
            assert(segments@.take(segments@.len() as int) == segments@);
        }
        Ok(free)
    }

    /// The segment that is followed: the top of the buffer, left in place.
    pub fn active(&self) -> (top: Option<Segment>)
        ensures
            self@.len() == 0 ==> top.is_none(),
            self@.len() > 0 ==> top == Some(self@.last()),
    {
        self.segment_buffer.last()
    }

    /// Takes the segment that is followed off the buffer and returns it.
    pub fn pop_active(&mut self) -> (top: Option<Segment>)
        ensures
            final(self).time == old(self).time,
            final(self).feedback == old(self).feedback,
            old(self)@.len() == 0 ==> top.is_none() && final(self)@ == old(self)@,
            old(self)@.len() > 0 ==> top == Some(old(self)@.last()) && final(self)@ == old(
                self,
            )@.drop_last(),
    {
        self.segment_buffer.pop()
    }

    /// Number of segments that remain.
    pub fn len(&self) -> (n: usize)
        ensures
            n == self@.len(),
            n <= CAPACITY,
    {
        self.segment_buffer.len()
    }

    /// Looks at the path from `position`.
    ///
    /// Takes every segment off the buffer whose closest point to `position` is its end,
    /// starting from the top, until the top is a segment still in progress or the buffer
    /// is empty. Reports the situation on the segment that is then on top.
    pub fn track(&mut self, position: Vector) -> (tracking: Tracking)
        requires
            position.in_range(),
        ensures
            final(self).time == old(self).time,
            final(self).feedback == old(self).feedback,
            advanced(old(self)@, final(self)@, position),
            tracking == tracking_of(old(self)@, final(self)@, position),
    {
        let ghost before = self@;
        let mut closest: Option<(u32, Vector)> = None;
        let mut info: Option<CrossTrack> = None;
        let mut searching = true;
        while searching
            invariant
                position.in_range(),
                self.time == old(self).time,
                self.feedback == old(self).feedback,
                before == old(self)@,
                self@.len() <= before.len(),
                self@ == before.take(self@.len() as int),
                forall|i: int|
                    self@.len() <= i < before.len() ==> is_complete(#[trigger] before[i], position),
                searching ==> info.is_none() && closest == if self@.len() == before.len() {
                    None
                } else {
                    Some(closest_on(before[self@.len() as int], position))
                },
                !searching ==> advanced(before, self@, position) && closest == tracking_of(
                    before,
                    self@,
                    position,
                ).closest_point && info == tracking_of(before, self@, position).segment_info,
            decreases self@.len() + if searching { 1nat } else { 0nat },
        {
            match self.segment_buffer.last() {
                None => {
                    searching = false;
                },
                Some(segment) => {
                    let (t, projected) = segment.closest_point(position);
                    closest = Some((t, projected));
                    if t >= PARAM_ONE {
                        self.segment_buffer.pop();
                        proof {
                            assert(self@ == before.take(self@.len() as int));
                            assert(before[self@.len() as int] == segment);
                        }
                    } else {
                        let tangent = segment.derivative(t);
                        let offset = position.minus(projected);
                        let length: u64 = offset.magnitude();
                        proof {
                            crate::math::lemma_magnitude_bound(
                                offset,
                                length as int,
                                8 * COORD_MAX,
                            );
                        }
                        let distance: i64 = if tangent.cross(offset) > 0 {
                            length as i64
                        } else {
                            -(length as i64)
                        };
                        info = Some(
                            CrossTrack { curvature: segment.curvature(t), distance, tangent },
                        );
                        searching = false;
                    }
                },
            }
        }
        Tracking { closest_point: closest, segment_info: info }
    }

    /// Turns what [`Path::track`] found into the command of this tick.
    ///
    /// Returns the curvature to steer in microradians per millimetre, the speed to drive,
    /// whether the path is done, and the record of the tick. Without a segment to follow
    /// the command is to stop and the path is done. The time of the tick is remembered
    /// for the next one.
    pub fn steer(
        &mut self,
        config: &PathConfig,
        time: u32,
        orientation: Orientation,
        tracking: &Tracking,
        bearing: &Bearing,
    ) -> (command: (i64, i32, bool, PathDebug))
        requires
            old(self).time <= time,
        ensures
            final(self).time == time,
            final(self)@ == old(self)@,
            (command.0 as int, command.1 as int, command.2) == command_of(
                *config,
                time - old(self).time,
                orientation.direction,
                *tracking,
                *bearing,
                old(self).feedback,
            ),
            command.3.path matches Some(buffer) && buffer@ == old(self)@,
            command.3.closest_point == tracking.closest_point,
            match tracking.segment_info {
                Some(info) => {
                    let steering = steering(
                        *config,
                        time - old(self).time,
                        orientation.direction,
                        info,
                        *bearing,
                        old(self).feedback,
                    );
                    command.3.records(info, *bearing, steering) && final(self).feedback
                        == steering.feedback
                },
                None => command.3.blank() && final(self).feedback == old(self).feedback,
            },
    {
        let delta_time: u32 = time - self.time;
        let mut debug = PathDebug {
            path: None,
            closest_point: tracking.closest_point,
            distance_from: None,
            tangent_direction: None,
            adjust_direction: None,
            centered_direction: None,
            offset_direction: None,
            projected_distance: None,
            adjust_curvature: None,
            target_curvature: None,
        };
        let (curvature, velocity, done) = match tracking.segment_info {
            Some(info) => {
                // The curvature of the path where the vehicle is
                let offset_curvature = offset_curvature(info.curvature, info.distance);
                let adjust_curvature: i64 = match config.correction {
                    Correction::Geometric { offset_p } => {
                        if offset_p != 0 {
                            let aim = aim(
                                bearing.tangent,
                                bearing.growth,
                                orientation.direction,
                                delta_time,
                                config.velocity,
                            );
                            debug.adjust_direction = Some(aim.adjust_direction);
                            debug.centered_direction = Some(aim.centered_direction);
                            debug.offset_direction = Some(aim.offset_direction);
                            debug.projected_distance = Some(aim.projected_distance);
                            aim.adjust_curvature
                        } else {
                            0
                        }
                    },
                    Correction::Feedback { p, i, d } => self.feedback.step(p, i, d, info.distance),
                };
                let target_curvature = saturate(offset_curvature as i128 + adjust_curvature as i128);
                debug.distance_from = Some(info.distance);
                debug.tangent_direction = Some(bearing.tangent);
                debug.adjust_curvature = Some(adjust_curvature);
                debug.target_curvature = Some(target_curvature);
                (target_curvature, config.velocity, false)
            },
            None => (0, 0, true),
        };
        debug.path = Some(self.segment_buffer.clone());
        self.time = time;
        (curvature, velocity, done, debug)
    }

    /// Runs one tick for a vehicle at `orientation` at `time`.
    ///
    /// Takes the completed segments off the buffer, measures where the vehicle is
    /// relative to the segment that is then active, and steers. Returns the curvature to
    /// steer in microradians per millimetre, the speed to drive, whether the path is
    /// done, and the record of the tick.
    ///
    /// Two things are asked of the caller, which has the trigonometry and the
    /// exponential function: `direction_of` gives the direction in which a vector points,
    /// and `exp` the exponential of a number in millionths, in millionths. The first is
    /// asked for the tangent of the path when there is a segment to follow, the second
    /// for the exponent of the s-curve when the geometric correction is on. Whatever
    /// they answer is steered by as [`command_of`] says.
    pub fn update(
        &mut self,
        config: &PathConfig,
        time: u32,
        orientation: Orientation,
        direction_of: impl Fn(Vector) -> Direction,
        exp: impl Fn(i64) -> u64,
    ) -> (command: (i64, i32, bool, PathDebug))
        requires
            old(self).time <= time,
            orientation.position.in_range(),
            forall|v: Vector| call_requires(direction_of, (v,)),
            forall|x: i64| call_requires(exp, (x,)),
        ensures
            final(self).time == time,
            advanced(old(self)@, final(self)@, orientation.position),
            command.2 == (final(self)@.len() == 0),
            command.2 ==> command.0 == 0 && command.1 == 0,
            old(self)@.len() == 0 ==> command.2,
            command.3.path matches Some(buffer) && buffer@ == final(self)@,
            ({
                let tracking = tracking_of(old(self)@, final(self)@, orientation.position);
                &&& command.3.closest_point == tracking.closest_point
                &&& exists|bearing: Bearing| #[trigger]
                    answered(direction_of, exp, *config, tracking, bearing) && steered(
                        *config,
                        time - old(self).time,
                        orientation.direction,
                        tracking,
                        bearing,
                        old(self).feedback,
                        command,
                        final(self).feedback,
                    )
            }),
    {
        let tracking = self.track(orientation.position);
        let bearing = match tracking.segment_info {
            Some(info) => {
                let growth = match config.correction {
                    Correction::Geometric { offset_p } => {
                        if offset_p != 0 {
                            exp(exponent(offset_p, info.distance))
                        } else {
                            0
                        }
                    },
                    Correction::Feedback { .. } => 0,
                };
                Bearing { tangent: direction_of(info.tangent), growth }
            },
            None => Bearing { tangent: Direction::from_microradians(0), growth: 0 },
        };
        let ghost elapsed = time - self.time;
        let ghost feedback = self.feedback;
        let command = self.steer(config, time, orientation, &tracking, &bearing);
        proof {
            assert(answered(direction_of, exp, *config, tracking, bearing));
            assert(steered(
                *config,
                elapsed,
                orientation.direction,
                tracking,
                bearing,
                feedback,
                command,
                self.feedback,
            ));
        }
        command
    }
}

/// `bearing` holds what the caller answered for this tick: the direction of the tangent
/// where there is a segment to follow, and the exponential of the exponent of the s-curve
/// where the geometric correction is on.
pub open spec fn answered<D: Fn(Vector) -> Direction, E: Fn(i64) -> u64>(
    direction_of: D,
    exp: E,
    config: PathConfig,
    tracking: Tracking,
    bearing: Bearing,
) -> bool {
    match tracking.segment_info {
        Some(info) => {
            &&& call_ensures(direction_of, (info.tangent,), bearing.tangent)
            &&& match config.correction {
                Correction::Geometric { offset_p } => offset_p != 0 ==> call_ensures(
                    exp,
                    (spec_exponent(offset_p as int, info.distance as int) as i64,),
                    bearing.growth,
                ),
                Correction::Feedback { .. } => true,
            }
        },
        None => true,
    }
}

/// `command` and `feedback_after` are what the steering law gives for what was tracked
/// and what the caller answered.
pub open spec fn steered(
    config: PathConfig,
    elapsed: int,
    heading: Direction,
    tracking: Tracking,
    bearing: Bearing,
    feedback: FeedbackState,
    command: (i64, i32, bool, PathDebug),
    feedback_after: FeedbackState,
) -> bool {
    &&& (command.0 as int, command.1 as int, command.2) == command_of(
        config,
        elapsed,
        heading,
        tracking,
        bearing,
        feedback,
    )
    &&& match tracking.segment_info {
        Some(info) => {
            let steering = steering(config, elapsed, heading, info, bearing, feedback);
            command.3.records(info, bearing, steering) && feedback_after == steering.feedback
        },
        None => command.3.blank() && feedback_after == feedback,
    }
}

/// Last in, first out: once `a`, `b` and `c` have been added in that order on top of
/// `stack`, the active segment is `c`, and taking the active segment off three times
/// gives `c`, then `b`, then `a`, and leaves `stack`.
pub proof fn lemma_last_in_first_out(stack: Seq<Segment>, a: Segment, b: Segment, c: Segment)
    ensures
        (stack + seq![a, b, c]).last() == c,
        (stack + seq![a, b, c]).drop_last().last() == b,
        (stack + seq![a, b, c]).drop_last().drop_last().last() == a,
        (stack + seq![a, b, c]).drop_last().drop_last().drop_last() == stack,
{
    let full = stack + seq![a, b, c];
    assert(full.drop_last() == stack + seq![a, b]);
    assert(full.drop_last().drop_last() == stack + seq![a]);
    assert(full.drop_last().drop_last().drop_last() == stack);
}

/// A full buffer takes nothing more: the part of any batch that is added to a stack of
/// [`CAPACITY`] segments is empty, and the stack stays as it was.
pub proof fn lemma_full_buffer_rejects(stack: Seq<Segment>, batch: Seq<Segment>)
    requires
        stack.len() == CAPACITY,
    ensures
        stack + batch.take(CAPACITY - stack.len()) == stack,
{
    assert(batch.take(0) == Seq::<Segment>::empty());
    assert(stack + Seq::<Segment>::empty() == stack);
}

/// A second look changes nothing: once the completed segments are off, a look from the
/// same position takes nothing more off and finds the same situation.
pub proof fn lemma_tracking_settles(before: Seq<Segment>, after: Seq<Segment>, position: Vector)
    requires
        advanced(before, after, position),
    ensures
        advanced(after, after, position),
        tracking_of(after, after, position).segment_info == tracking_of(
            before,
            after,
            position,
        ).segment_info,
{
    assert(after.take(after.len() as int) == after);
}

/// A look has one outcome: from one stack and one position only one stack can remain.
pub proof fn lemma_advance_is_unique(
    before: Seq<Segment>,
    first: Seq<Segment>,
    second: Seq<Segment>,
    position: Vector,
)
    requires
        advanced(before, first, position),
        advanced(before, second, position),
    ensures
        first == second,
{
    if first.len() < second.len() {
        assert(second.last() == before[second.len() - 1]);
    }
    if second.len() < first.len() {
        assert(first.last() == before[first.len() - 1]);
    }
}

/// On course, no correction: a vehicle on the path that points along it is steered
/// along the arc of the path and nothing else, at any strength of the geometric
/// correction. On the path the exponent of the s-curve is zero and its exponential one.
pub proof fn lemma_on_course(
    offset_p: i32,
    velocity: i32,
    elapsed: int,
    heading: Direction,
    info: CrossTrack,
    feedback: FeedbackState,
)
    requires
        0 <= heading@ < TAU,
    ensures
        steering(
            PathConfig { correction: Correction::Geometric { offset_p }, velocity },
            elapsed,
            heading,
            info,
            Bearing { tangent: heading, growth: MICRO as u64 },
            feedback,
        ).adjust_curvature == 0,
        steering(
            PathConfig { correction: Correction::Geometric { offset_p }, velocity },
            elapsed,
            heading,
            info,
            Bearing { tangent: heading, growth: MICRO as u64 },
            feedback,
        ).target_curvature == clamp(
            spec_offset_curvature(info.curvature as int, info.distance as int),
        ),
{
    assert(spec_angle_offset(MICRO as int) == 0);
    assert((heading@ + 0) % TAU as int == heading@);
    assert(crate::steering::MILLI * 0 == 0);
}

/// Done stays done: from an empty buffer a look at the path takes nothing off, finds no
/// segment, and the command is to stop with the path done, whatever the configuration,
/// the pose and the time.
pub proof fn lemma_done_is_stable(
    after: Seq<Segment>,
    position: Vector,
    config: PathConfig,
    elapsed: int,
    heading: Direction,
    bearing: Bearing,
    feedback: FeedbackState,
)
    requires
        advanced(Seq::<Segment>::empty(), after, position),
    ensures
        after == Seq::<Segment>::empty(),
        tracking_of(Seq::<Segment>::empty(), after, position) == (Tracking {
            closest_point: None,
            segment_info: None,
        }),
        command_of(
            config,
            elapsed,
            heading,
            tracking_of(Seq::<Segment>::empty(), after, position),
            bearing,
            feedback,
        ) == (0int, 0int, true),
{
    assert(after =~= Seq::<Segment>::empty());
}

} // verus!
