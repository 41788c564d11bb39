//! Shading core of an offline ray tracer.
//!
//! The library models local illumination with a Cook-Torrance microfacet
//! BRDF behind a small material interface.  All arithmetic is exact binary
//! fixed-point (32 fractional bits) so that every operation has a precise
//! mathematical contract; operations saturate at the representable range
//! instead of overflowing, and every degenerate geometric configuration
//! has a documented, verified fallback.

pub mod cook_torrance;
pub mod fixed;
pub mod material;
pub mod vec3;
