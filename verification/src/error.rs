//! Error kinds reported by the pipeline.

use vstd::prelude::*;

verus! {

/// Everything that can go wrong while removing a background.
///
/// The stages in this crate only ever produce `InvalidInput`, `ShapeError`
/// and `PreprocessingError`; the remaining kinds exist so that a caller
/// driving the external model and the image codecs can funnel its own
/// failures through the same type.
#[derive(Clone, Copy, Debug, PartialEq, Eq, Structural)]
pub enum RembgError {
    /// An image codec failed while decoding or encoding.
    ImageError,
    /// The external inference engine failed; opaque to this crate.
    OnnxError,
    /// A file operation failed.
    IoError,
    /// The model file could not be found.
    ModelNotFound,
    /// A caller-supplied dimension or parameter is malformed.
    InvalidInput,
    /// The requested output format is not supported.
    UnsupportedFormat,
    /// Mask and image dimensions do not match before compositing.
    PreprocessingError,
    /// A tensor operation failed.
    TensorError,
    /// A tensor rank or dimension violates the contract.
    ShapeError,
}

} // verus!
