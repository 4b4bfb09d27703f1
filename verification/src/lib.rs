//! The decisions of a Monte Carlo ray tracer.
//!
//! A scene of spheres is drawn by casting rays from a camera, bouncing them
//! off diffuse, metallic and refractive surfaces, and averaging what comes
//! back. This crate takes every decision of that work and does none of its
//! arithmetic.
//!
//! A scalar is a binary64 value carried as its bit pattern ([`scalar`]). The
//! caller adds, multiplies, divides, takes roots and draws random numbers,
//! and hands the results in: a probe of a surface, a sample for a material,
//! the square roots of a colour. The library decides on them: which crossing
//! of a sphere counts as the hit and which side was hit ([`sphere`],
//! [`hittable`]), which member of a list is hit first ([`hittable`]),
//! whether a ray is scattered or absorbed, reflected or refracted
//! ([`material`]), when a path ends and in what ([`camera`]), which byte a
//! channel becomes ([`color`], [`integer`]) and what the text of the image
//! is ([`ppm`], [`camera`]). Whatever is decided is stated over the bit
//! patterns, and [`value`] shows that their order is the order of the
//! values.
pub mod camera;
pub mod color;
pub mod hittable;
pub mod integer;
pub mod interval;
pub mod material;
pub mod point3;
pub mod ppm;
pub mod ray;
pub mod scalar;
pub mod sphere;
pub mod value;
pub mod vec3;
