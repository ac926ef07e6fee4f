//! Fixed-point 2D orbital mechanics: a gravity force model, a per-frame orbit
//! integrator, a trajectory predictor and the vehicle and camera controls.
//!
//! Lengths are counted in thousandths of a unit (`SCALE` steps per unit),
//! time steps in microseconds, masses and the gravitational constant in whole
//! numbers. All arithmetic is exact integer arithmetic: divisions truncate
//! toward zero, velocities and positions saturate at the bounds of `i64`, and
//! a pull saturates at `±i64::MAX`, so that reversing it is exact.
pub mod numeric;
pub mod components;
pub mod gravity;
pub mod orbit;
pub mod trajectory;
pub mod control;
pub mod setup;
