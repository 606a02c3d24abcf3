//! A software ray tracer over exact fixed-point arithmetic.
//!
//! Every scalar is an `i64` holding a real value multiplied by [`math::SCALE`];
//! all geometry (camera basis derivation, sample enumeration, ray-sphere
//! intersection, nearest-hit resolution) is computed exactly over these
//! integers, so every result is pinned down by a contract.

pub mod camera;
pub mod geometry;
pub mod math;
pub mod renderer;
pub mod scene;

pub use renderer::{Color, color};
