//! Image-based-lighting precomputation in deterministic fixed-point arithmetic.
//!
//! The pipeline turns an equirectangular radiance image into the three
//! textures that physically-based shading consumes: a diffuse irradiance
//! cubemap, a specular prefiltered cubemap with a roughness mip chain, and a
//! split-sum BRDF integration lookup table.  Every stage is pure integer
//! arithmetic over values scaled by `fixed::SCALE`, so results are exactly
//! reproducible run to run.

pub mod brdf_lut;
pub mod convert;
pub mod fixed;
pub mod geometry;
pub mod irradiance;
pub mod mipchain;
pub mod pipeline;
pub mod prefilter;
pub mod sample;
pub mod sampling;
pub mod texture;
pub mod trig;
pub mod vec3;

pub use fixed::SCALE;
