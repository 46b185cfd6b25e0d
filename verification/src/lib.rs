//! A small path tracer on fixed-point numbers: scenes of spheres, three
//! materials, a thin-lens camera and a plain-text image encoder.

pub mod scalar;
pub mod wide;
pub mod vec3;
pub mod sampler;
pub mod ray;
pub mod text;
pub mod color;
pub mod hittable;
pub mod material;
pub mod sphere;
pub mod sphere_laws;
pub mod camera;
pub mod ppm;
pub mod laws;
pub mod scenes;
pub mod sky;
pub mod aim;
