//! A cursor-trail animation engine: a deformable quadrilateral whose four
//! corners chase the terminal cursor's cell position with direction-aware
//! exponential decay, producing a stretch/smear visual.
//!
//! All geometry is carried in fixed-point micro-cells (`UNITS_PER_CELL`
//! units per terminal cell), so every step of the animation is exact
//! integer arithmetic with a precise contract.

pub mod config;
pub mod laws;
pub mod num;
pub mod render;
pub mod trail;

pub use num::{FP_ONE, MAX_ANCHOR, MAX_CELL, MAX_COORD, UNITS_PER_CELL};
