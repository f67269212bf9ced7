//! An offline Monte Carlo path tracer over Q16.16 fixed-point arithmetic.
//!
//! Every quantity the renderer computes with (coordinates, colors, angles,
//! probabilities) is a real number represented as an `i64` holding the value
//! scaled by 2^16. All arithmetic saturates at a fixed range bound, so every
//! operation is total and its result is specified exactly as a function of
//! its operands.

pub mod fixed;
pub mod geom;
pub mod img;
pub mod math;
pub mod renderer;
pub mod rng;
pub mod sample;
pub mod trig;
