//! The decisions of a small ray tracer, verified.
//!
//! Every quantity of the tracer is an IEEE-754 single-precision value. This
//! library holds such a value as its bit pattern, a plain `u32`, and proves
//! what the tracer decides on it: which of a sphere's two roots a ray takes,
//! which of many spheres it meets first, whether a material scatters or
//! absorbs, and when a path of bounces ends. The arithmetic that produces
//! the values is left to the caller.

pub mod scalar;
pub mod vec3;
pub mod ray;
pub mod hitable;
pub mod material;
pub mod radiance;
pub mod ppm;
