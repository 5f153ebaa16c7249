//! A fixed-point steering-behavior kernel in the style of Reynolds' classic
//! seek/flee model: point-mass vehicles with damped force integration, an
//! oriented local frame maintained by cross products, and an approximate
//! length metric used for all force and speed clamping.
//!
//! All quantities are fixed-point integers with [`fixed::SCALE`] sub-units
//! per length unit, so every operation has an exact integer specification.

pub mod fixed;
pub mod local_space;
pub mod seeker;
pub mod simple_vehicle;
pub mod vector;
