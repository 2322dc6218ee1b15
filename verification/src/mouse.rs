//! The vehicle around the path follower: it turns the command of the path into the power
//! of the two wheels.
use vstd::prelude::*;
use crate::fixed::{clamp, saturate, MICRO};
use crate::math::{Direction, Orientation, Vector};
use crate::steering::FeedbackState;
use crate::path::{
    advanced, answered, command_of, tracking_of, Bearing, Path, PathConfig, PathDebug, Segment,
};

verus! {

/// Full power, in millionths.
pub const FULL_POWER: i64 = MICRO;

/// Length of one period of the test pattern, in units of time.
pub const TEST_PERIOD: u32 = 10000;

/// Part of each period of the test pattern during which the wheels rest.
pub const TEST_REST: u32 = 5000;

/// Raw readings of the tick, kept for telemetry.
#[derive(Clone, Copy, Debug, Default, PartialEq, Eq, Structural)]
pub struct HardwareDebug {
    pub left_encoder: i32,
    pub right_encoder: i32,
    pub left_distance: u8,
    pub front_distance: u8,
    pub right_distance: u8,
}

/// Everything the vehicle worked out in one tick, for telemetry.
#[derive(Clone, Debug, Default, PartialEq)]
pub struct MouseDebug {
    pub hardware: HardwareDebug,
    pub orientation: Orientation,
    pub path: PathDebug,
    pub battery: u16,
    pub time: u32,
    pub delta_time: u32,
}

/// What the vehicle is told to do.
#[derive(Clone, Copy, Debug, PartialEq, Eq, Structural)]
pub struct MouseConfig {
    pub path: PathConfig,
}

impl Default for MouseConfig {
    fn default() -> (config: MouseConfig)
        ensures
            config.path == (PathConfig {
                correction: crate::steering::Correction::Geometric { offset_p: 0 },
                velocity: 0,
            }),
    {
        MouseConfig { path: PathConfig::default() }
    }
}

/// The power of the left and of the right wheel for a curvature and a speed: the speed
/// less the curvature on the left and plus the curvature on the right, saturated, so that
/// a positive curvature turns the vehicle to the left.
pub open spec fn spec_mix(curvature: int, velocity: int) -> (int, int) {
    (clamp(velocity - curvature), clamp(velocity + curvature))
}

/// Straight ahead both wheels run at the speed, and a vehicle told to stop on a path that
/// is done has both wheels at rest.
pub proof fn lemma_mix_straight(velocity: i32)
    ensures
        spec_mix(0, velocity as int) == (velocity as int, velocity as int),
        spec_mix(0, 0) == (0int, 0int),
{
}

/// Mixes a curvature and a speed into the power of the two wheels.
pub fn mix(curvature: i64, velocity: i32) -> (power: (i64, i64))
    ensures
        (power.0 as int, power.1 as int) == spec_mix(curvature as int, velocity as int),
{
    (
        saturate(velocity as i128 - curvature as i128),
        saturate(velocity as i128 + curvature as i128),
    )
}

/// A vehicle that follows a path.
#[derive(Clone, Debug)]
pub struct Mouse {
    pub path: Path,
    pub done: bool,
}

impl Mouse {
    /// A vehicle at the start of a mission, at `time`: nothing to follow yet, and done
    /// until it is given a path.
    pub fn new(config: &MouseConfig, time: u32) -> (mouse: Mouse)
        ensures
            mouse.path@ == Seq::<Segment>::empty(),
            mouse.path.time == time,
            mouse.path.feedback == (FeedbackState { integral: 0, previous_error: 0 }),
            mouse.done,
    {
        Mouse { path: Path::new(&config.path, time), done: true }
    }

    /// Runs one tick: follows the path from `orientation`, and mixes the command into the
    /// power of the wheels.
    ///
    /// `battery` and `hardware` are the readings of the tick, kept in the record.
    /// `direction_of` and `exp` are asked as [`Path::update`] says. Returns the power of
    /// the left and of the right wheel and the record of the tick. Once the path is done
    /// both are zero.
    pub fn update(
        &mut self,
        config: &MouseConfig,
        time: u32,
        battery: u16,
        hardware: HardwareDebug,
        orientation: Orientation,
        direction_of: impl Fn(Vector) -> Direction,
        exp: impl Fn(i64) -> u64,
    ) -> (output: (i64, i64, MouseDebug))
        requires
            old(self).path.time <= time,
            orientation.position.in_range(),
            forall|v: Vector| call_requires(direction_of, (v,)),
            forall|x: i64| call_requires(exp, (x,)),
        ensures
            final(self).path.time == time,
            advanced(old(self).path@, final(self).path@, orientation.position),
            final(self).done == (final(self).path@.len() == 0),
            final(self).done ==> output.0 == 0 && output.1 == 0,
            old(self).path@.len() == 0 ==> final(self).done,
            ({
                let tracking = tracking_of(
                    old(self).path@,
                    final(self).path@,
                    orientation.position,
                );
                exists|bearing: Bearing| #[trigger]
                    answered(direction_of, exp, config.path, tracking, bearing) && ({
                        let command = command_of(
                            config.path,
                            time - old(self).path.time,
                            orientation.direction,
                            tracking,
                            bearing,
                            old(self).path.feedback,
                        );
                        (output.0 as int, output.1 as int) == spec_mix(command.0, command.1)
                    })
            }),
            output.2.hardware == hardware,
            output.2.orientation == orientation,
            output.2.battery == battery,
            output.2.time == time,
            output.2.delta_time == time - old(self).path.time,
    {
        let delta_time: u32 = time - self.path.time;
        let (curvature, velocity, done, path_debug) = self.path.update(
            &config.path,
            time,
            orientation,
            direction_of,
            exp,
        );
        self.done = done;
        let (left_power, right_power) = mix(curvature, velocity);
        let debug = MouseDebug {
            hardware,
            orientation,
            path: path_debug,
            battery,
            time,
            delta_time,
        };
        (left_power, right_power, debug)
    }
}

/// A stand-in for the vehicle that drives a fixed pattern, to try out the wheels.
pub struct TestMouse {}

impl TestMouse {
    /// A stand-in, which has nothing to remember.
    pub fn new() -> (mouse: TestMouse) {
        TestMouse {  }
    }

    /// The power of the two wheels at `time`: at rest for the first half of each period
    /// of [`TEST_PERIOD`], up to and with [`TEST_REST`], then at full power.
    pub fn update(&mut self, _config: &MouseConfig, time: u32, _left_encoder: i32, _right_encoder: i32)
        -> (power: (i64, i64))
        ensures
            time % TEST_PERIOD <= TEST_REST ==> power == (0i64, 0i64),
            time % TEST_PERIOD > TEST_REST ==> power == (FULL_POWER, FULL_POWER),
    {
        if time % TEST_PERIOD <= TEST_REST {
            (0, 0)
        } else {
            (FULL_POWER, FULL_POWER)
        }
    }
}

} // verus!
