use micromouse_logic::bezier::PARAM_ONE;
use micromouse_logic::fixed::{LIMIT, TAU};
use micromouse_logic::math::{Direction, Orientation, Vector};
use micromouse_logic::path::{
    Bearing, CrossTrack, Path, PathConfig, PathDebug, Segment, Tracking,
};
use micromouse_logic::steering::{exponent, Correction, FeedbackState};

fn v(x: i64, y: i64) -> Vector {
    Vector { x, y }
}

fn pose(x: i64, y: i64, heading: i64) -> Orientation {
    Orientation { position: v(x, y), direction: Direction::from_microradians(heading) }
}

fn geometric(offset_p: i32, velocity: i32) -> PathConfig {
    PathConfig { correction: Correction::Geometric { offset_p }, velocity }
}

/// A line of one metre along the x axis.
fn straight() -> Segment {
    Segment::line(v(0, 0), v(1_000_000, 0))
}

/// A left turn at the origin, entered heading east and left heading north.
fn left_corner() -> Segment {
    Segment::corner(v(0, 0), v(1_000_000, 0), v(0, 1_000_000), 90_000)
}

/// The direction in which a vector points.
fn direction_of(v: Vector) -> Direction {
    Direction::from_microradians(((v.y as f64).atan2(v.x as f64) * 1e6) as i64)
}

/// The exponential of a number in millionths, in millionths.
fn exp(x: i64) -> u64 {
    ((x as f64 / 1e6).exp() * 1e6) as u64
}

/// Works out the direction of the tangent and the growth of the s-curve by hand.
fn bearing_for(config: &PathConfig, tracking: &Tracking) -> Bearing {
    match tracking.segment_info {
        Some(info) => {
            let strength = match config.correction {
                Correction::Geometric { offset_p } => offset_p,
                Correction::Feedback { .. } => 0,
            };
            Bearing {
                tangent: direction_of(info.tangent),
                growth: exp(exponent(strength, info.distance)),
            }
        }
        None => Bearing { tangent: Direction::from_microradians(0), growth: 1_000_000 },
    }
}

/// One whole tick.
fn tick(
    path: &mut Path,
    config: &PathConfig,
    time: u32,
    orientation: Orientation,
) -> (i64, i32, bool, PathDebug) {
    path.update(config, time, orientation, direction_of, exp)
}

fn angle(direction: Option<Direction>) -> Option<i64> {
    direction.map(|d| d.microradians())
}

#[test]
fn empty_path_is_done() {
    let config = geometric(50, 100_000);
    let mut path = Path::new(&config, 0);
    let (curvature, velocity, done, debug) = tick(&mut path, &config, 0, pose(0, 0, 0));
    assert_eq!((curvature, velocity, done), (0, 0, true));
    assert_eq!(debug.closest_point, None);
    assert_eq!(debug.distance_from, None);
    assert_eq!(angle(debug.tangent_direction), None);
    assert_eq!(angle(debug.adjust_direction), None);
    assert_eq!(debug.centered_direction, None);
    assert_eq!(debug.offset_direction, None);
    assert_eq!(debug.projected_distance, None);
    assert_eq!(debug.adjust_curvature, None);
    assert_eq!(debug.target_curvature, None);
}

#[test]
fn done_stays_done() {
    let config = geometric(50, 100_000);
    let mut path = Path::new(&config, 0);
    for time in [0, 1, 5, 5, 1_000_000] {
        let tracking = path.track(v(time as i64 * 3, -7));
        assert_eq!(tracking, Tracking { closest_point: None, segment_info: None });
        let bearing = bearing_for(&config, &tracking);
        let (curvature, velocity, done, _) =
            path.steer(&config, time, pose(time as i64 * 3, -7, 1_000), &tracking, &bearing);
        assert_eq!((curvature, velocity, done), (0, 0, true));
        assert_eq!(path.len(), 0);
        assert_eq!(path.time, time);
    }
}

#[test]
fn a_segment_is_complete_at_its_end_and_leaves_in_the_same_call() {
    let config = geometric(50, 100_000);
    let mut path = Path::new(&config, 0);
    path.add_segments(&[straight()]).unwrap();
    let tracking = path.track(v(1_000_000, 0));
    assert_eq!(tracking.closest_point, Some((PARAM_ONE, v(1_000_000, 0))));
    assert_eq!(tracking.segment_info, None);
    assert_eq!(path.len(), 0);
    let bearing = bearing_for(&config, &tracking);
    let (curvature, velocity, done, debug) =
        path.steer(&config, 10, pose(1_000_000, 0, 0), &tracking, &bearing);
    assert_eq!((curvature, velocity, done), (0, 0, true));
    assert_eq!(debug.closest_point, Some((256, v(1_000_000, 0))));
    assert_eq!(debug.distance_from, None);
}

#[test]
fn every_complete_segment_on_top_leaves_at_once() {
    let config = geometric(0, 100_000);
    let first = Segment::line(v(0, 0), v(100_000, 0));
    let second = Segment::line(v(100_000, 0), v(200_000, 0));
    let third = Segment::line(v(200_000, 0), v(300_000, 0));
    let ahead = Segment::line(v(300_000, 0), v(400_000, 0));
    let mut path = Path::new(&config, 0);
    // the segment to drive first goes on last
    path.add_segments(&[ahead, third, second, first]).unwrap();
    let tracking = path.track(v(250_000, 0));
    assert_eq!(path.len(), 2);
    assert_eq!(path.active(), Some(third));
    assert_eq!(tracking.closest_point, Some(third.closest_point(v(250_000, 0))));
    assert!(tracking.segment_info.is_some());
    // a segment below one in progress stays, complete or not
    let mut blocked = Path::new(&config, 0);
    blocked.add_segments(&[first, ahead]).unwrap();
    let tracking = blocked.track(v(350_000, 0));
    assert_eq!(blocked.len(), 2);
    assert_eq!(tracking.closest_point, Some(ahead.closest_point(v(350_000, 0))));
}

#[test]
fn the_last_segment_looked_at_is_reported_when_all_leave() {
    let config = geometric(0, 100_000);
    let bottom = Segment::line(v(0, 0), v(100_000, 0));
    let top = Segment::line(v(100_000, 0), v(200_000, 0));
    let mut path = Path::new(&config, 0);
    path.add_segments(&[bottom, top]).unwrap();
    let tracking = path.track(v(500_000, 1_000));
    assert_eq!(path.len(), 0);
    assert_eq!(tracking.segment_info, None);
    assert_eq!(tracking.closest_point, Some((PARAM_ONE, v(100_000, 0))));
}

#[test]
fn distance_is_positive_to_the_left_of_the_path() {
    let config = geometric(50, 100_000);
    let mut path = Path::new(&config, 0);
    path.add_segments(&[straight()]).unwrap();
    let tracking = path.track(v(0, 50_000));
    let info = tracking.segment_info.unwrap();
    assert_eq!(tracking.closest_point, Some((0, v(0, 0))));
    assert_eq!(info.tangent, v(65_536_000_000, 0));
    assert_eq!(info.tangent.cross(v(0, 50_000)), 3_276_800_000_000_000);
    assert_eq!(info.distance, 50_000);
    assert_eq!(info.curvature, 0);
}

#[test]
fn distance_is_negative_to_the_right_of_the_path_and_on_it() {
    let mut path = Path::new(&geometric(50, 100_000), 0);
    path.add_segments(&[straight()]).unwrap();
    assert_eq!(path.track(v(500_000, -20_000)).segment_info.unwrap().distance, -20_000);
    assert_eq!(path.track(v(300_000, 1_000)).segment_info.unwrap().distance, 1_000);
    assert_eq!(path.track(v(300_000, 0)).segment_info.unwrap().distance, 0);
    assert_eq!(path.track(v(250_000, -3_000)).segment_info.unwrap().distance, -3_000);
}

#[test]
fn update_is_track_then_steer() {
    let config = geometric(50, 100_000);
    let orientation = pose(-30_000, 10_000, 200_000);
    let mut whole = Path::new(&config, 0);
    whole.add_segments(&[straight(), left_corner()]).unwrap();
    let mut parts = whole.clone();
    let (curvature, velocity, done, debug) =
        whole.update(&config, 5, orientation, direction_of, exp);
    let tracking = parts.track(orientation.position);
    let bearing = bearing_for(&config, &tracking);
    let (c, v, d, record) = parts.steer(&config, 5, orientation, &tracking, &bearing);
    assert_eq!((curvature, velocity, done), (c, v, d));
    assert_eq!((curvature, velocity, done), (16_578, 100_000, false));
    assert_eq!(debug.closest_point, record.closest_point);
    assert_eq!(debug.target_curvature, record.target_curvature);
    assert_eq!(debug.adjust_curvature, Some(-526));
    assert_eq!(whole.len(), parts.len());
    assert_eq!(whole.time, 5);
}

#[test]
fn update_asks_only_for_what_it_needs() {
    fn never(_: Vector) -> Direction {
        panic!("no tangent to ask for")
    }
    fn no_exponential(_: i64) -> u64 {
        panic!("no exponential to ask for")
    }
    // nothing to follow: nothing is asked
    let config = geometric(50, 100_000);
    let mut path = Path::new(&config, 0);
    let (_, _, done, _) = path.update(&config, 1, pose(0, 0, 0), never, no_exponential);
    assert!(done);
    // the correction is off: only the tangent is asked for
    let off = geometric(0, 100_000);
    path.add_segments(&[left_corner()]).unwrap();
    let (curvature, _, _, _) =
        path.update(&off, 2, pose(-30_000, 10_000, 0), direction_of, no_exponential);
    assert_eq!(curvature, 17_104);
    // feedback: the same
    let feedback = PathConfig {
        correction: Correction::Feedback { p: 1_000, i: 0, d: 0 },
        velocity: 100_000,
    };
    let (curvature, _, _, _) =
        path.update(&feedback, 3, pose(-30_000, 10_000, 0), direction_of, no_exponential);
    assert_eq!(curvature, 17_104 - 7_252);
}

#[test]
fn update_steers_by_whatever_it_is_answered() {
    let config = geometric(50, 100_000);
    let mut path = Path::new(&config, 0);
    path.add_segments(&[straight()]).unwrap();
    // told that the path runs north and that the exponential is one, on a vehicle that
    // heads east: a quarter turn to the left over half a metre
    let (curvature, _, _, debug) = path.update(
        &config,
        5,
        pose(500_000, 0, 0),
        |_| Direction::from_microradians(1_570_796),
        |_| 1_000_000,
    );
    assert_eq!(angle(debug.adjust_direction), Some(1_570_796));
    assert_eq!(debug.offset_direction, Some(1_570_796));
    assert_eq!(curvature, 3_141);
}

#[test]
fn tracking_a_corner() {
    let mut path = Path::new(&geometric(50, 100_000), 0);
    path.add_segments(&[left_corner()]).unwrap();
    let tracking = path.track(v(-30_000, 10_000));
    assert_eq!(
        tracking,
        Tracking {
            closest_point: Some((82, v(-28_427, 2_920))),
            segment_info: Some(CrossTrack {
                curvature: 15_217,
                distance: 7_252,
                tangent: v(5_449_680_000, 1_210_320_000),
            }),
        }
    );
    assert_eq!(path.len(), 1);
}

#[test]
fn end_to_end() {
    let config = geometric(50, 100_000);
    let mut path = Path::new(&config, 0);
    let (curvature, velocity, done, _) = tick(&mut path, &config, 0, pose(0, 0, 0));
    assert_eq!((curvature, velocity, done), (0, 0, true));
    assert_eq!(path.add_segments(&[straight()]), Ok(15));
    let (curvature, velocity, done, debug) = tick(&mut path, &config, 5, pose(0, 0, 0));
    assert_eq!((curvature, velocity, done), (0, 100_000, false));
    assert_eq!(debug.closest_point, Some((0, v(0, 0))));
    assert_eq!(debug.distance_from, Some(0));
    assert_eq!(angle(debug.tangent_direction), Some(0));
    assert_eq!(angle(debug.adjust_direction), Some(0));
    assert_eq!(debug.centered_direction, Some(0));
    assert_eq!(debug.offset_direction, Some(0));
    assert_eq!(debug.projected_distance, Some(500_000));
    assert_eq!(debug.adjust_curvature, Some(0));
    assert_eq!(debug.target_curvature, Some(0));
    assert_eq!(path.time, 5);
    assert_eq!(path.len(), 1);
}

#[test]
fn the_first_tick_expects_no_travel_and_adds_no_correction() {
    let config = geometric(50, 100_000);
    let mut path = Path::new(&config, 40);
    path.add_segments(&[straight()]).unwrap();
    // off the path and pointing away from it, but no time has passed
    let (curvature, velocity, done, debug) = tick(&mut path, &config, 40, pose(100_000, 9_000, 300_000));
    assert_eq!((curvature, velocity, done), (0, 100_000, false));
    assert_eq!(debug.projected_distance, Some(0));
    assert_eq!(debug.adjust_curvature, Some(0));
    assert!(debug.offset_direction.unwrap() < 0);
}

#[test]
fn a_vehicle_at_rest_adds_no_correction() {
    let config = geometric(50, 0);
    let mut path = Path::new(&config, 0);
    path.add_segments(&[straight()]).unwrap();
    let (curvature, velocity, done, debug) = tick(&mut path, &config, 9, pose(100_000, 9_000, 300_000));
    assert_eq!((curvature, velocity, done), (0, 0, false));
    assert_eq!(debug.projected_distance, Some(0));
    assert_eq!(debug.adjust_curvature, Some(0));
}

#[test]
fn no_strength_means_no_correction() {
    let config = geometric(0, 100_000);
    let mut path = Path::new(&config, 0);
    path.add_segments(&[left_corner()]).unwrap();
    let (curvature, velocity, done, debug) = tick(&mut path, &config, 5, pose(-30_000, 10_000, 200_000));
    // the curvature of the arc beside the path, and nothing else
    assert_eq!((curvature, velocity, done), (17_104, 100_000, false));
    assert_eq!(debug.distance_from, Some(7_252));
    assert_eq!(angle(debug.tangent_direction), Some(218_543));
    assert_eq!(angle(debug.adjust_direction), None);
    assert_eq!(debug.centered_direction, None);
    assert_eq!(debug.offset_direction, None);
    assert_eq!(debug.projected_distance, None);
    assert_eq!(debug.adjust_curvature, Some(0));
    assert_eq!(debug.target_curvature, Some(17_104));
}

#[test]
fn steering_through_a_corner() {
    let config = geometric(50, 100_000);
    let mut path = Path::new(&config, 0);
    path.add_segments(&[left_corner()]).unwrap();
    let orientation = pose(-30_000, 10_000, 200_000);
    let tracking = path.track(orientation.position);
    let bearing = bearing_for(&config, &tracking);
    assert_eq!(bearing.tangent.microradians(), 218_543);
    assert_eq!(bearing.growth, 1_437_060);
    let (curvature, velocity, done, debug) =
        path.steer(&config, 5, orientation, &tracking, &bearing);
    assert_eq!((curvature, velocity, done), (16_578, 100_000, false));
    assert_eq!(debug.closest_point, Some((82, v(-28_427, 2_920))));
    assert_eq!(debug.distance_from, Some(7_252));
    assert_eq!(angle(debug.tangent_direction), Some(218_543));
    assert_eq!(angle(debug.adjust_direction), Some(6_220_021));
    assert_eq!(debug.centered_direction, Some(6_483_184));
    assert_eq!(debug.offset_direction, Some(-263_163));
    assert_eq!(debug.projected_distance, Some(500_000));
    assert_eq!(debug.adjust_curvature, Some(-526));
    assert_eq!(debug.target_curvature, Some(16_578));
}

#[test]
fn the_correction_turns_toward_the_path() {
    let config = geometric(50, 100_000);
    let mut path = Path::new(&config, 0);
    path.add_segments(&[straight()]).unwrap();
    // to the left of the path, heading along it: steer right
    let (left_of_path, _, _, _) = tick(&mut path, &config, 5, pose(100_000, 20_000, 0));
    assert!(left_of_path < 0);
    // to the right of the path, heading along it: steer left
    let (right_of_path, _, _, _) = tick(&mut path, &config, 10, pose(200_000, -20_000, 0));
    assert!(right_of_path > 0);
    // the farther off, the harder
    let (far_left, _, _, _) = tick(&mut path, &config, 15, pose(300_000, 60_000, 0));
    assert!(far_left < left_of_path);
}

#[test]
fn the_heading_is_unwrapped_before_it_is_compared() {
    let config = geometric(50, 100_000);
    let mut path = Path::new(&config, 0);
    path.add_segments(&[straight()]).unwrap();
    // on the path, heading a hair to the right of it: just below a full turn
    let (curvature, _, _, debug) = tick(&mut path, &config, 5, pose(500_000, 0, TAU - 1_000));
    assert_eq!(debug.centered_direction, Some(-1_000));
    assert_eq!(debug.offset_direction, Some(1_000));
    assert_eq!(curvature, 2);
    // the same heading given two turns on gives the same
    let (again, _, _, _) = tick(&mut path, &config, 10, pose(500_000, 0, 3 * TAU - 1_000));
    assert_eq!(again, 2);
}

#[test]
fn the_record_holds_a_copy_of_the_buffer() {
    let config = geometric(50, 100_000);
    let mut path = Path::new(&config, 0);
    let far = Segment::line(v(1_000_000, 0), v(2_000_000, 0));
    path.add_segments(&[far, straight()]).unwrap();
    let (_, _, _, debug) = tick(&mut path, &config, 5, pose(10_000, 0, 0));
    let mut copy = Path {
        segment_buffer: debug.path.unwrap(),
        time: 0,
        feedback: FeedbackState { integral: 0, previous_error: 0 },
    };
    assert_eq!(copy.len(), 2);
    assert_eq!(copy.pop_active(), Some(straight()));
    assert_eq!(copy.pop_active(), Some(far));
    assert_eq!(path.len(), 2);
}

#[test]
fn the_record_of_a_done_path_holds_an_empty_buffer() {
    let config = geometric(50, 100_000);
    let mut path = Path::new(&config, 0);
    path.add_segments(&[straight()]).unwrap();
    let (_, _, done, debug) = tick(&mut path, &config, 5, pose(1_000_000, 0, 0));
    assert!(done);
    let copy = Path {
        segment_buffer: debug.path.unwrap(),
        time: 0,
        feedback: FeedbackState { integral: 0, previous_error: 0 },
    };
    assert_eq!(copy.len(), 0);
}

#[test]
fn feedback_correction() {
    let config = PathConfig {
        correction: Correction::Feedback { p: 3_000, i: 100, d: 2_000 },
        velocity: 100_000,
    };
    let mut path = Path::new(&config, 0);
    path.add_segments(&[straight()]).unwrap();
    let (curvature, velocity, done, debug) = tick(&mut path, &config, 5, pose(100_000, 2_000, 0));
    assert_eq!((curvature, velocity, done), (-10_200, 100_000, false));
    assert_eq!(debug.distance_from, Some(2_000));
    assert_eq!(debug.adjust_curvature, Some(-10_200));
    assert_eq!(angle(debug.adjust_direction), None);
    assert_eq!(debug.projected_distance, None);
    assert_eq!(path.feedback, FeedbackState { integral: -2_000, previous_error: -2_000 });
    let (curvature, _, _, _) = tick(&mut path, &config, 10, pose(200_000, 1_500, 0));
    assert_eq!(curvature, -3_850);
    assert_eq!(path.feedback, FeedbackState { integral: -3_500, previous_error: -1_500 });
    let (curvature, _, _, _) = tick(&mut path, &config, 15, pose(300_000, -500, 0));
    assert_eq!(curvature, 5_200);
    assert_eq!(path.feedback, FeedbackState { integral: -3_000, previous_error: 500 });
}

#[test]
fn feedback_with_no_gain_is_no_correction() {
    let config = PathConfig {
        correction: Correction::Feedback { p: 0, i: 0, d: 0 },
        velocity: 100_000,
    };
    let mut path = Path::new(&config, 0);
    path.add_segments(&[left_corner()]).unwrap();
    let (curvature, _, _, debug) = tick(&mut path, &config, 5, pose(-30_000, 10_000, 200_000));
    assert_eq!(curvature, 17_104);
    assert_eq!(debug.adjust_curvature, Some(0));
}

#[test]
fn feedback_state_is_kept_while_the_path_is_done_and_can_be_reset() {
    let config = PathConfig {
        correction: Correction::Feedback { p: 3_000, i: 100, d: 2_000 },
        velocity: 100_000,
    };
    let mut path = Path::new(&config, 0);
    path.add_segments(&[straight()]).unwrap();
    tick(&mut path, &config, 5, pose(100_000, 2_000, 0));
    let (_, _, done, _) = tick(&mut path, &config, 10, pose(1_000_000, 2_000, 0));
    assert!(done);
    assert_eq!(path.feedback, FeedbackState { integral: -2_000, previous_error: -2_000 });
    path.feedback.reset();
    assert_eq!(path.feedback, FeedbackState { integral: 0, previous_error: 0 });
}

#[test]
fn geometric_correction_leaves_the_feedback_state_alone() {
    let config = geometric(50, 100_000);
    let mut path = Path::new(&config, 0);
    path.feedback = FeedbackState { integral: 11, previous_error: -4 };
    path.add_segments(&[straight()]).unwrap();
    tick(&mut path, &config, 5, pose(100_000, 2_000, 0));
    assert_eq!(path.feedback, FeedbackState { integral: 11, previous_error: -4 });
}

#[test]
fn the_target_curvature_saturates() {
    let config = geometric(0, 100_000);
    let mut path = Path::new(&config, 0);
    let tracking = Tracking {
        closest_point: Some((3, v(0, 0))),
        segment_info: Some(CrossTrack { curvature: 1_000_000, distance: 1_000, tangent: v(1, 0) }),
    };
    let bearing = Bearing { tangent: Direction::from_microradians(0), growth: 1_000_000 };
    let (curvature, _, _, debug) = path.steer(&config, 1, pose(0, 0, 0), &tracking, &bearing);
    assert_eq!(curvature, LIMIT);
    assert_eq!(debug.closest_point, Some((3, v(0, 0))));
    assert_eq!(debug.target_curvature, Some(LIMIT));
}
