//! A real-time clipper core, verified.
//!
//! The processor applies a smoothed gain stage followed by a clipping
//! nonlinearity to a block of audio samples. All processing is done in
//! integer fixed point: control values live in the decibel domain at a
//! scale of 1000 units per dB, and signal values live in the linear
//! domain at a scale of 1,000,000 units per 1.0.

pub mod clip;
pub mod engine;
pub mod params;
pub mod smooth;
pub mod units;
