//! A recursive Monte-Carlo path tracer over fixed-point arithmetic.
//!
//! Every real-valued quantity of the renderer (coordinates, colors, ray
//! parameters) is an `i64` count of 1/65536 units.  Arithmetic saturates at
//! the `i64` range and truncates toward zero on division, and every function
//! of the pipeline carries a contract that pins its result down to those
//! rules.

pub mod camera;
pub mod fixed;
pub mod hit;
pub mod material;
pub mod sphere;
pub mod color;
pub mod interval;
pub mod ray;
pub mod rng;
pub mod vec3;
