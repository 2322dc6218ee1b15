//! Trajectory tracking for a small wheeled robot, in fixed-point arithmetic.
//!
//! A [`path::Path`] holds the segments that remain to be driven, lines and corners, in a
//! stack of fixed capacity. Once per control tick [`path::Path::update`] takes the pose of
//! the vehicle, takes the segments that are complete off the stack, measures how far the
//! vehicle is from the segment that is then active, and returns the curvature to steer
//! and the speed to drive. When no segment is left the path is done and the vehicle is
//! told to stop. [`mouse::Mouse`] turns the command into the power of the two wheels.
//!
//! Every quantity is an integer count of a small unit; [`fixed`] lists the units. All
//! arithmetic is exact or rounds as its contract says, nothing overflows and nothing
//! allocates on the way from pose to command.
//!
//! Two things are beyond integer arithmetic and are asked of the caller on every tick:
//! the direction in which a tangent points, and the exponential function in the s-curve
//! of the geometric correction. The contracts hold for whatever the caller answers.
//!
//! The modules, from the ground up:
//!
//! - [`fixed`]: units, rounding, saturation and the integer square root;
//! - [`math`]: vectors and headings;
//! - [`bezier`]: cubic curves on a grid of parameters;
//! - [`steering`]: the correction laws;
//! - [`buffer`]: the stack of segments, kept in a `heapless::Vec`;
//! - [`path`]: segments and the path follower;
//! - [`mouse`]: the vehicle around it.
#![allow(unused_imports)]

pub mod fixed;
pub mod math;
pub mod bezier;
pub mod steering;
pub mod buffer;
pub mod path;
pub mod mouse;
