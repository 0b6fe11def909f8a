//! A two-channel loudness-limiting engine, verified with Verus.
//!
//! The engine measures perceptual loudness of a stereo stream and derives a
//! gain coefficient that keeps the output below a configured ceiling.  All
//! audio values are fixed-point integers: an `i64` carrying 20 fractional
//! bits, so that `fixed::FIXED_ONE` stands for an amplitude of 1.0 (digital
//! full scale).  The host-facing boundary (decibel conversion, filter
//! coefficient design, `f32` sample conversion) lives outside this crate and
//! hands the engine plain fixed-point values.

pub mod delay_buffer;
pub mod engine;
pub mod envelope;
pub mod fixed;
pub mod limiter;
pub mod loudness;
pub mod params;
pub mod sum_buffer;
