//! A Monte Carlo path tracer over fixed-point arithmetic.
//!
//! Real quantities (coordinates, colors, angles) are carried as `i64`
//! values scaled by `fixed::SCALE`; every arithmetic step is specified
//! exactly, including its rounding and saturation behaviour.

pub mod color;
pub mod fixed;
pub mod hittable;
pub mod interval;
pub mod material;
pub mod ppm;
pub mod ray;
pub mod render;
pub mod schedule;
pub mod sphere;
pub mod utils;
pub mod vec3;
