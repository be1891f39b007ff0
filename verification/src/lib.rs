//! A stochastic ray tracer over an exact fixed-point scalar: every
//! coordinate is an `i64` holding `value * SCALE`, so the geometric
//! decisions - slab tests, quadratic roots, root selection, the radiance
//! recursion and its depth cap - are carried out in exact integer
//! arithmetic and verified against exact contracts. Randomness enters only
//! through the thin wrappers in `rng`, and every function that consumes a
//! draw is verified for all of its values.

pub mod aabb;
pub mod block;
pub mod bvh;
pub mod camera;
pub mod color;
pub mod hitable;
pub mod hitable_list;
pub mod material;
pub mod math;
pub mod medium;
pub mod perlin;
pub mod ray;
pub mod rectangle;
pub mod render;
pub mod rng;
pub mod sphere;
pub mod texture;
pub mod translate;
pub mod trig;
pub mod vec3;
