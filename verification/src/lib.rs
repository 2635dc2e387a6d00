//! Engine for a tiled generative-art animation: a grid of coloured
//! semicircles that slide and rotate between cells over a procedurally
//! generated palette background.
//!
//! All continuous quantities (times, angles, screen coordinates, colour
//! channels) are held in fixed-point micro-units: an `i64` counts
//! millionths, so `1_000_000` stands for `1.0`.  The platform layer that
//! owns the window and the frame clock feeds the engine plain values and
//! receives a list of drawable primitives back.

pub mod easing;
pub mod fixed;
pub mod grid;
pub mod math;
pub mod model;
pub mod palette;
pub mod render;
pub mod rng;
pub mod semicircle;
