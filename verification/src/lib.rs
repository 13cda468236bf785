//! A small offline ray tracer over saturating fixed-point arithmetic.
//!
//! Scalars are `i64` values carrying four decimal digits of fraction
//! (`SCALE` units per 1.0); every arithmetic step saturates at `±FX_MAX`.
//! The scene is a list of triangles with point lights; a bounding-volume
//! hierarchy accelerates nearest-hit queries, and a recursive shader
//! computes per-ray colors with shadows, a coarse glow pass and mirror
//! reflection up to a fixed depth.

pub mod bvh;
pub mod fixed;
pub mod geom;
pub mod laws;
pub mod trace;
pub mod trig;
pub mod vecmath;
pub mod world;
