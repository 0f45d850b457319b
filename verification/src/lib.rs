//! A Monte-Carlo path tracer whose core — bounds, geometric primitives,
//! a surface-area-heuristic bounding volume hierarchy, material scattering
//! and the recursive radiance integrator — is verified.  World-space
//! quantities are `Q47.16` fixed-point numbers (see [`fixed`]), so every
//! geometric computation is exact integer arithmetic with saturation in
//! place of floating-point infinities.

pub mod fixed;
pub mod interval;
pub mod vec3;
pub mod ray;
pub mod aabb;
pub mod material;
pub mod hit;
pub mod sphere;
pub mod triangle;
pub mod hit_list;
pub mod bvh;
pub mod mesh;
pub mod rng;
pub mod utils;
pub mod camera;
