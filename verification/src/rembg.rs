//! The tail of the pipeline: from the engine's quantised output and the
//! original image to the final result.

use vstd::prelude::*;
use crate::alpha::removal_image;
use crate::clean_sticker_border::{clean_sticker_border, cleaned_image};
use crate::error::RembgError;
use crate::image_processor::{reconstructed_mask, ImageProcessor};
use crate::options::RemovalOptions;
use crate::raster::RgbaImage;
use crate::result::RemovalResult;
use crate::tensor::{shape_ok, ProbTensor};

verus! {

/// Runs the stages after inference: reconstructs the mask at the
/// original resolution, composites the image under the threshold
/// policy, and, when the sticker option is set, cleans the border.
///
/// The caller drives the external engine and hands its quantised output
/// here; each stage's failure is propagated and nothing partial is
/// returned.
pub fn compose_result(
    original: &RgbaImage,
    mask_output: &ProbTensor,
    options: &RemovalOptions,
) -> (r: Result<RemovalResult, RembgError>)
    requires
        original.wf(),
        mask_output.wf(),
    ensures
        match r {
            Ok(res) => {
                &&& shape_ok(mask_output.dims@)
                &&& original.width >= 1
                &&& original.height >= 1
                &&& res.wf()
                &&& res.mask.width == original.width
                &&& res.mask.height == original.height
                &&& res.mask.data@ == reconstructed_mask(
                    mask_output.dims@,
                    mask_output.data@,
                    original.width as int,
                    original.height as int,
                )
                &&& res.image.width == original.width
                &&& res.image.height == original.height
                &&& {
                    let composited = removal_image(
                        original.data@,
                        res.mask.data@,
                        original.npix(),
                        options.threshold,
                        options.binary,
                    );
                    res.image.data@ == (if options.sticker {
                        cleaned_image(
                            composited,
                            original.width as int,
                            original.height as int,
                        )
                    } else {
                        composited
                    })
                }
            },
            Err(e) => {
                &&& (!shape_ok(mask_output.dims@) || original.width == 0
                    || original.height == 0)
                &&& e == (if !shape_ok(mask_output.dims@) {
                    RembgError::ShapeError
                } else {
                    RembgError::InvalidInput
                })
            },
        },
{
    let nbytes = original.data.len();
    let mask = match ImageProcessor::postprocess_mask(
        mask_output,
        original.width,
        original.height,
    ) {
        Ok(m) => m,
        Err(e) => {
            return Err(e);
        },
    };
    let composited = match ImageProcessor::apply_mask(original, &mask, options) {
        Ok(img) => img,
        Err(e) => {
            // The mask was just built at the original's dimensions, so
            // the compositor cannot refuse it.
            proof {
                assert(false);
            }
            return Err(e);
        },
    };
    let image = if options.sticker {
        clean_sticker_border(&composited)
    } else {
        composited
    };
    Ok(RemovalResult { image, mask })
}

} // verus!
