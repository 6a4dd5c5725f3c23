//! A small software ray tracer over fixed-point arithmetic.
//!
//! Geometry, colors and angles are carried as `i64` values scaled by
//! `fixed::FP` (a 16-bit binary fixed point).  Every rendering step —
//! cube intersection by the slab method, Phong-style local shading,
//! soft shadow attenuation, and the depth-bounded reflection/refraction
//! recursion for crystal materials — is verified against a spec-level
//! model of the same fixed-point computation.

pub mod fixed;
pub mod color;
pub mod vec3;
pub mod light;
pub mod material;
pub mod ray_intersect;
pub mod cube;
pub mod framebuffer;
pub mod camera;
pub mod render;

pub use render::cast_ray;
pub use render::render;
