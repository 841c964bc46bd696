//! A stochastic path tracer over spheres, in verified fixed-point arithmetic.
//!
//! The renderer samples many camera rays per pixel, follows each ray's
//! bounces through a scene of spheres according to per-surface material
//! behaviour (diffuse, metallic, dielectric), and averages the radiance into
//! an 8-bit RGB buffer.  All numbers are fixed-point scalars (`fixed`); every
//! function's contract states the value it computes over that scalar model.

pub mod camera;
pub mod fixed;
pub mod material;
pub mod object;
pub mod ray;
pub mod render;
pub mod rng;
pub mod vec3;
