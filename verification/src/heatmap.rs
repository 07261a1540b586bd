//! The diagnostic path of the mask reconstructor: renders the
//! probability plane through a colour ramp instead of expanding it into
//! an alpha channel.
//!
//! The ramp itself — eight colour stops with a gamma correction baked in
//! — is floating-point work and is supplied by the caller as a finished
//! 256-entry RGB table; rendering and resampling happen here.

use vstd::prelude::*;
use vstd::arithmetic::div_mod::{
    lemma_fundamental_div_mod, lemma_mod_division_less_than_divisor, lemma_multiply_divide_lt,
};
use vstd::arithmetic::mul::lemma_mul_is_commutative;
use crate::error::RembgError;
use crate::raster::RgbImage;
use crate::resample::{lanczos_rgb, resize_rgb};
use crate::tensor::{shape_ok, ProbTensor};

verus! {

/// A probability plane mapped through a colour ramp: pixel `p` takes the
/// RGB triple at entry `plane[p]` of the 256-entry table.
pub open spec fn heat_image(plane: Seq<u8>, lut: Seq<u8>) -> Seq<u8> {
    Seq::new(
        (3 * plane.len()) as nat,
        |k: int| lut[3 * (plane[k / 3] as int) + k % 3],
    )
}

/// The shapes the heatmap path accepts: those of the mask reconstructor
/// whose colour-mapped plane also fits in memory.
pub open spec fn heat_shape_ok(dims: Seq<usize>) -> bool {
    shape_ok(dims) && 3 * ((dims[dims.len() - 2] as int) * (dims[dims.len() - 1] as int))
        <= usize::MAX
}

/// Renders the engine's quantised output as an RGB heatmap at the
/// original resolution: reduces the tensor to its trailing plane as the
/// mask reconstructor does, maps every probability through the colour
/// ramp, and resamples the coloured plane to the requested size with
/// the Lanczos filter. A plane that already has the requested size is
/// only colour-mapped.
///
/// Fails with `ShapeError` when the shape violates the reconstructor's
/// contract and with `InvalidInput` when a requested dimension is zero.
pub fn postprocess_mask(t: &ProbTensor, lut: &Vec<u8>, original_width: u32, original_height: u32) -> (r:
    Result<RgbImage, RembgError>)
    requires
        t.wf(),
        lut@.len() == 768,
        3 * ((original_width as int) * (original_height as int)) <= usize::MAX,
    ensures
        match r {
            Ok(img) => {
                &&& heat_shape_ok(t.dims@)
                &&& original_width >= 1
                &&& original_height >= 1
                &&& img.width == original_width
                &&& img.height == original_height
                &&& img.wf()
                &&& img.data@ == (if t.plane_w() == original_width && t.plane_h()
                    == original_height {
                    heat_image(t.plane(), lut@)
                } else {
                    lanczos_rgb(
                        heat_image(t.plane(), lut@),
                        t.plane_w(),
                        t.plane_h(),
                        original_width as int,
                        original_height as int,
                    )
                })
            },
            Err(e) => {
                &&& (!heat_shape_ok(t.dims@) || original_width == 0 || original_height == 0)
                &&& e == (if !heat_shape_ok(t.dims@) {
                    RembgError::ShapeError
                } else {
                    RembgError::InvalidInput
                })
            },
        },
{
    let ndims = t.dims.len();
    if ndims < 2 || ndims > 4 {
        return Err(RembgError::ShapeError);
    }
    let mut i: usize = 0;
    let mut all_pos = true;
    while i < ndims
        invariant
            ndims == t.dims@.len(),
            i <= ndims,
            all_pos ==> forall|j: int| 0 <= j < i ==> #[trigger] t.dims@[j] >= 1,
            !all_pos ==> exists|j: int| 0 <= j < i && #[trigger] t.dims@[j] == 0,
        decreases ndims - i,
    {
        if t.dims[i] == 0 {
            all_pos = false;
            proof {
                assert(t.dims@[i as int] == 0);
            }
        }
        i = i + 1;
    }
    if !all_pos {
        return Err(RembgError::ShapeError);
    }
    let h = t.dims[ndims - 2];
    let w = t.dims[ndims - 1];
    if h > u32::MAX as usize || w > u32::MAX as usize {
        return Err(RembgError::ShapeError);
    }
    assert(shape_ok(t.dims@));
    let plane = t.extract_plane();
    let hw = plane.len();
    if hw > usize::MAX / 3 {
        return Err(RembgError::ShapeError);
    }
    assert(heat_shape_ok(t.dims@));
    if original_width == 0 || original_height == 0 {
        return Err(RembgError::InvalidInput);
    }

    // Colour-map the plane.
    let ghost spec_heat = heat_image(t.plane(), lut@);
    let total = 3 * hw;
    let mut heat: Vec<u8> = Vec::new();
    let mut k: usize = 0;
    while k < total
        invariant
            hw == plane@.len(),
            total == 3 * hw,
            plane@ == t.plane(),
            lut@.len() == 768,
            spec_heat == heat_image(t.plane(), lut@),
            spec_heat.len() == 3 * hw,
            k <= total,
            heat@.len() == k,
            forall|j: int| 0 <= j < k ==> heat@[j] == spec_heat[j],
        decreases total - k,
    {
        let p = k / 3;
        let c = k % 3;
        proof {
            lemma_fundamental_div_mod(k as int, 3);
            lemma_mod_division_less_than_divisor(k as int, 3);
            lemma_multiply_divide_lt(k as int, 3, hw as int);
        }
        let v = plane[p];
        heat.push(lut[3 * (v as usize) + c]);
        k = k + 1;
    }
    proof {
        assert(heat@ =~= spec_heat);
    }

    let ph = h as u32;
    let pw = w as u32;
    proof {
        lemma_mul_is_commutative(t.plane_h(), t.plane_w());
    }
    if pw == original_width && ph == original_height {
        Ok(RgbImage { width: original_width, height: original_height, data: heat })
    } else {
        let data = resize_rgb(&heat, pw, ph, original_width, original_height);
        Ok(RgbImage { width: original_width, height: original_height, data })
    }
}

} // verus!
