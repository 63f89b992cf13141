//! The discrete core of a spectral Monte-Carlo path tracer.
//!
//! A path tracer computes with real numbers, and this crate does not. It
//! holds what a tracer decides rather than what it calculates: the sample
//! sequences as exact fractions, the bounding-volume hierarchy and its
//! queries, the slab test on an axis-aligned box, the acceptance of a hit on
//! a sphere, a triangle or a fog, the choice among refraction, diffusion and
//! specular reflection, the order of the rows of an image and the intensity
//! by which the image is normalised. Wherever a real number takes part in a
//! decision it comes in as its ordinal (see [`ordinal`]), an integer that
//! orders as the number does.

pub mod aabb;
pub mod bvh;
pub mod color;
pub mod hit;
pub mod math;
pub mod ordinal;
pub mod render;
pub mod sequence;
pub mod state;
pub mod surface;
pub mod tracer;
pub mod units;
pub mod vec3;
