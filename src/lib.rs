//! Motion core of a two-arm manipulator visualizer: joint and finger
//! tracking, the joint-angle convention of the arm's kinematic chain, the
//! swing of the gripper linkage, command handling and fingertip trails.
//!
//! Quantities are fixed-point integers: angles in millidegrees (joints) or
//! microdegrees (linkage swing), lengths in micrometres, finger travel in
//! milli-percent and time in milliseconds.
pub mod command;
pub mod gripper;
pub mod robot;
pub mod trail;
pub mod tracking;

