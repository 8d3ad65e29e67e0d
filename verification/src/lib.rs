//! The deciding core of a small Monte Carlo ray tracer.
//!
//! A renderer of this kind casts rays into a scene of surfaces, follows each
//! ray from bounce to bounce, and multiplies up the colours it meets. This
//! crate holds what such a renderer decides: which of two numbers is the
//! smaller ([`scalar`]), which root of a sphere counts as a hit ([`object`]),
//! which surface of a scene is hit first ([`hitable`]), whether a material
//! sends a ray on ([`material`]), where a path of light ends ([`radiance`]),
//! and how the finished pixels are written down ([`ppm`]).
//!
//! Real numbers travel through the crate as IEEE 754 binary64 bit patterns.
//! Everything the crate decides about them is computed on the patterns with
//! integer arithmetic and proved against the values that the patterns encode.
//! Rounded arithmetic is left to the program around the crate, which supplies
//! its surfaces and materials through the traits [`hitable::Hitable`] and
//! [`material::Material`].

pub mod hitable;
pub mod material;
pub mod object;
pub mod ppm;
pub mod radiance;
pub mod ray;
pub mod scalar;
pub mod vec3;

pub use self::ray::Ray;
pub use self::scalar::Scalar;
pub use self::vec3::Vec3;
