//! Content-aware cropping: picks the most salient rectangle of an image for a target aspect
//! from edge, skin-tone and saturation features, a multi-scale candidate search and a
//! rule-of-thirds importance model, all in fixed-point arithmetic.
use vstd::prelude::*;

pub mod pixel;
pub mod buffer;
pub mod downsample;
pub mod options;
pub mod features;
pub mod scoring;
pub mod crops;
pub mod analysis;
mod outside;
pub mod pipeline;

pub use buffer::Image;
pub use options::SmartCropOption;
pub use pipeline::{crop, open};
pub use pixel::RGBA;
pub use scoring::Crop;

verus! {

} // verus!
