//! Background removal core: turns a probability mask produced by an external
//! segmentation model into a composited RGBA image with a transparency
//! channel, and optionally draws a soft outline around the cut-out sticker.
//!
//! The numeric pipeline lives here and is verified: tensor shape reduction,
//! mask resampling, threshold-driven alpha compositing and the
//! distance-field border pass. Image decoding, model inference and the
//! floating-point normalisation that feeds the model are left to the caller.

pub mod alpha;
pub mod clean_sticker_border;
pub mod dist;
pub mod error;
pub mod heatmap;
pub mod image_processor;
pub mod options;
pub mod paths;
pub mod raster;
pub mod rembg;
pub mod resample;
pub mod result;
pub mod tensor;
