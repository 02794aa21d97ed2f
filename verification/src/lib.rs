//! An offline path tracer over fixed-point coordinates.
//!
//! Geometry, the bounding-volume hierarchy, materials and the Monte-Carlo
//! integrator are written against a Q16.16 fixed-point scalar (an `i64`
//! holding 65536 times the represented value), so that every arithmetic
//! step has an exact, machine-checkable meaning.  Saturating operations
//! stand in for the unbounded real line.

pub mod aabb;
pub mod angles;
pub mod box_prim;
pub mod bvh;
pub mod isotropic_mat;
pub mod laws;
pub mod light;
pub mod material;
pub mod qmath;
pub mod ray;
pub mod rectangle;
pub mod sampler;
pub mod sphere;
pub mod texture;
pub mod trace;
pub mod traceable;
pub mod transform;
pub mod utils;
pub mod vec3;
pub mod volumetric;
pub mod world;
