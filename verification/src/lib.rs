//! Core of a Shack-Hartmann adaptive-optics control loop.
//!
//! The library holds the numeric and stateful heart of the loop: frame
//! geometry, per-subaperture calibration and centre-of-gravity measurement,
//! the integrator control law, the actuator sink, the loop state machine and
//! a bounded telemetry ring.  All quantities are exact integers; fractional
//! values are carried in fixed point with `SCALE` steps per unit, so every
//! result is pinned down exactly by its contract.
//!
//! Acquisition hardware (or its simulation), wall-clock timing and the
//! out-of-process telemetry consumer live outside the library and talk to it
//! through plain values: frames in, measurement and command vectors out.

pub mod aoloop;
pub mod controller;
pub mod error;
pub mod fakedm;
pub mod fixed;
pub mod frame;
pub mod report;
pub mod telemetry;
pub mod wfs;

pub use error::AoError;
