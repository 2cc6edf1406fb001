//! The exact half of a separable image resampler over planar linear light:
//! the EXIF orientations and the pixel permutation each names, the filter
//! choice, and the deterministic fixtures of its conformance suite.
pub mod filter;
pub mod orientation;
pub mod orient;
pub mod fixtures;
pub mod incumbents;

pub use filter::{filter, parse_filter, Filter};
pub use orientation::Orientation;
pub use orient::{orient, source_sample};
pub use fixtures::{checkerboard, fit_long_edge, synthetic_noise};
pub use incumbents::{fir_filter, fir_u8, fir_u8_srgb_mapped};
