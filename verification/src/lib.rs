//! A small path tracer over analytic surfaces.
//!
//! Scenes are lists of spheres with diffuse, metallic or dielectric
//! materials; a pinhole camera casts jittered rays per pixel, follows
//! scattered bounces up to a depth limit and averages the samples into
//! gamma-corrected byte pixels.
//!
//! All quantities are decimal fixed-point numbers ([`fixed`]), so every
//! arithmetic step has an exact integer meaning that the contracts state.

pub mod camera;
pub mod fixed;
pub mod hittable;
pub mod interval;
pub mod material;
pub mod random;
pub mod ray;
pub mod sphere;
pub mod vec3;
