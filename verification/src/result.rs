//! The outcome of a removal run: the composited image and the mask that
//! produced it, independently inspectable.

use vstd::prelude::*;
use crate::raster::{Mask, RgbaImage};

verus! {

/// Owns the final RGBA image and the reconstructed mask. Both buffers
/// are fresh per invocation and decoupled from the pipeline's internal
/// buffers.
#[derive(Debug)]
pub struct RemovalResult {
    /// The composited RGBA image.
    pub image: RgbaImage,
    /// The probability mask the compositor used, at the image's
    /// resolution.
    pub mask: Mask,
}

impl RemovalResult {
    /// Both buffers match their dimensions.
    pub open spec fn wf(&self) -> bool {
        self.image.wf() && self.mask.wf()
    }

    /// The composited image.
    pub fn image(&self) -> (r: &RgbaImage)
        ensures
            r == &self.image,
    {
        &self.image
    }

    /// The mask that produced it.
    pub fn mask(&self) -> (r: &Mask)
        ensures
            r == &self.mask,
    {
        &self.mask
    }

    /// Splits the result into its two buffers.
    pub fn into_parts(self) -> (r: (RgbaImage, Mask))
        ensures
            r.0 == self.image,
            r.1 == self.mask,
    {
        (self.image, self.mask)
    }
}

} // verus!
