//! A progressive path tracer's discrete core: the scene description and its
//! procedural generator, the control flow of a light path, the per-pixel
//! accumulation buffer and its conversion to display bytes.
//!
//! Every quantity is a fixed-point number with 32 fractional bits (see
//! [`fixed`]), so that each rule is stated and proved over integers.

pub mod fixed;
pub mod color;
pub mod random;
pub mod world;
pub mod path;
pub mod nearest;
pub mod pixels;
pub mod display;
pub mod sample;
