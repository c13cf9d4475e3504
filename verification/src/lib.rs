//! Sampling-based model-predictive control for kinematic agents.
//!
//! All scalar quantities (positions, headings, velocities, time steps) are
//! fixed-point values counted in micro-units: the `i64` value `1_000_000`
//! stands for `1.0`. Arithmetic on these scalars saturates at the `i64`
//! range instead of wrapping, so every operation of the control core is
//! total.

pub mod accel_diff_drive;
pub mod agent;
pub mod codec;
pub mod diff_drive;
pub mod fixed;
pub mod scene;
mod rng;
