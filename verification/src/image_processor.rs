//! The three core pipeline stages: preprocessing for the model, mask
//! reconstruction, and alpha compositing.

use vstd::prelude::*;
use vstd::arithmetic::div_mod::{
    lemma_fundamental_div_mod, lemma_fundamental_div_mod_converse,
    lemma_mod_division_less_than_divisor, lemma_multiply_divide_lt,
};
use vstd::arithmetic::mul::lemma_mul_is_commutative;
use crate::alpha::{compute_alpha, removal_image};
use crate::error::RembgError;
use crate::options::RemovalOptions;
use crate::raster::{rgb_chan, rgba_chan, Mask, RgbaImage};
use crate::resample::{lanczos_gray, lanczos_rgb, resize_gray, resize_rgb};
use crate::tensor::{shape_ok, InputTensor, ProbTensor};

verus! {

/// The source image with its alpha dropped: for each pixel the three
/// colour channels, still interleaved.
pub open spec fn rgb_of(data: Seq<u8>, npix: int) -> Seq<u8> {
    Seq::new((3 * npix) as nat, |k: int| data[4 * (k / 3) + (k % 3)])
}

/// An interleaved RGB buffer rearranged channel-first: all red samples,
/// then all green, then all blue, each plane row-major.
pub open spec fn planar_of(inter: Seq<u8>, w: int, h: int) -> Seq<u8> {
    Seq::new((3 * (w * h)) as nat, |k: int| inter[3 * (k % (w * h)) + k / (w * h)])
}

/// What the mask reconstructor produces for a tensor of shape `dims`
/// and contents `data`: the trailing `(H, W)` plane, resampled to
/// `ow * oh` unless it already has exactly that size.
pub open spec fn reconstructed_mask(dims: Seq<usize>, data: Seq<u8>, ow: int, oh: int) -> Seq<
    u8,
> {
    let h = dims[dims.len() - 2] as int;
    let w = dims[dims.len() - 1] as int;
    let plane = data.take(h * w);
    if w == ow && h == oh {
        plane
    } else {
        lanczos_gray(plane, w, h, ow, oh)
    }
}

/// The stateless processor: preprocessing, mask reconstruction and
/// compositing, each a pure function over complete buffers.
pub struct ImageProcessor;

impl ImageProcessor {
    /// Prepares a source image for the segmentation model: drops the
    /// alpha channel, resamples the RGB image to the model's input
    /// resolution with the Lanczos filter, and lays the result out
    /// channel-first. The caller still owes the model its per-channel
    /// floating-point normalisation; the samples here are plain bytes.
    ///
    /// Fails with `InvalidInput` when a target dimension is zero, and
    /// likewise when the source image is empty.
    pub fn preprocess_for_model(img: &RgbaImage, target_width: u32, target_height: u32) -> (r:
        Result<InputTensor, RembgError>)
        requires
            img.wf(),
            3 * ((target_width as int) * (target_height as int)) <= usize::MAX,
        ensures
            match r {
                Ok(t) => {
                    &&& target_width >= 1
                    &&& target_height >= 1
                    &&& img.width >= 1
                    &&& img.height >= 1
                    &&& t.width == target_width
                    &&& t.height == target_height
                    &&& t.wf()
                    &&& t.data@ == planar_of(
                        lanczos_rgb(
                            rgb_of(img.data@, img.npix()),
                            img.width as int,
                            img.height as int,
                            target_width as int,
                            target_height as int,
                        ),
                        target_width as int,
                        target_height as int,
                    )
                },
                Err(e) => {
                    &&& (target_width == 0 || target_height == 0 || img.width == 0
                        || img.height == 0)
                    &&& e == RembgError::InvalidInput
                },
            },
    {
        if target_width == 0 || target_height == 0 || img.width == 0 || img.height == 0 {
            return Err(RembgError::InvalidInput);
        }
        let n = img.data.len();
        let npix = (img.width as usize) * (img.height as usize);
        let ghost spec_rgb = rgb_of(img.data@, img.npix());

        // Drop the alpha channel.
        let mut rgb: Vec<u8> = Vec::new();
        let mut i: usize = 0;
        while i < npix
            invariant
                img.wf(),
                n == img.data@.len(),
                npix == img.npix(),
                i <= npix,
                rgb@.len() == 3 * i,
                forall|j: int, c: int|
                    0 <= j < i && 0 <= c < 3 ==> #[trigger] rgb_chan(rgb@, j, c) == rgba_chan(
                        img.data@,
                        j,
                        c,
                    ),
            decreases npix - i,
        {
            let ghost pre = rgb@;
            let base = 4 * i;
            rgb.push(img.data[base]);
            rgb.push(img.data[base + 1]);
            rgb.push(img.data[base + 2]);
            proof {
                assert forall|j: int, c: int| 0 <= j < i + 1 && 0 <= c < 3 implies #[trigger]
                    rgb_chan(rgb@, j, c) == rgba_chan(img.data@, j, c) by {
                    if j < i {
                        assert(rgb_chan(pre, j, c) == rgba_chan(img.data@, j, c));
                        assert(rgb@[3 * j + c] == pre[3 * j + c]);
                    } else {
                        assert(rgb@[3 * j + c] == img.data@[4 * i + c]);
                    }
                }
            }
            i = i + 1;
        }
        proof {
            assert forall|k: int| 0 <= k < 3 * img.npix() implies rgb@[k] == spec_rgb[k] by {
                lemma_fundamental_div_mod(k, 3);
                lemma_mod_division_less_than_divisor(k, 3);
                lemma_multiply_divide_lt(k, 3, img.npix());
                assert(rgb_chan(rgb@, k / 3, k % 3) == rgba_chan(img.data@, k / 3, k % 3));
            }
            assert(rgb@ =~= spec_rgb);
        }

        // Resample to the model resolution.
        let resized = resize_rgb(&rgb, img.width, img.height, target_width, target_height);
        let ghost spec_inter = lanczos_rgb(
            spec_rgb,
            img.width as int,
            img.height as int,
            target_width as int,
            target_height as int,
        );

        // Rearrange channel-first.
        let tpix = (target_width as usize) * (target_height as usize);
        let total = 3 * tpix;
        let ghost spec_planar = planar_of(
            spec_inter,
            target_width as int,
            target_height as int,
        );
        proof {
            assert((target_width as int) * (target_height as int) >= 1) by (nonlinear_arith)
                requires
                    target_width >= 1,
                    target_height >= 1,
            ;
        }
        let mut out: Vec<u8> = Vec::new();
        let mut k: usize = 0;
        while k < total
            invariant
                tpix == (target_width as int) * (target_height as int),
                tpix >= 1,
                total == 3 * tpix,
                resized@ == spec_inter,
                resized@.len() == 3 * tpix,
                spec_planar == planar_of(
                    spec_inter,
                    target_width as int,
                    target_height as int,
                ),
                spec_planar.len() == 3 * tpix,
                k <= total,
                out@.len() == k,
                forall|j: int| 0 <= j < k ==> out@[j] == spec_planar[j],
            decreases total - k,
        {
            let c = k / tpix;
            let p = k % tpix;
            proof {
                lemma_mod_division_less_than_divisor(k as int, tpix as int);
                lemma_multiply_divide_lt(k as int, tpix as int, 3);
                lemma_fundamental_div_mod(k as int, tpix as int);
            }
            out.push(resized[3 * p + c]);
            k = k + 1;
        }
        proof {
            assert(out@ =~= spec_planar);
        }
        Ok(InputTensor { width: target_width, height: target_height, data: out })
    }

    /// Reconstructs the probability mask at the original resolution from
    /// the engine's quantised output: reduces the tensor to its trailing
    /// `(H, W)` plane by taking index 0 along every leading axis, then
    /// resamples that plane to `original_width * original_height` with
    /// the Lanczos filter. A plane that already has the requested size
    /// is copied unchanged.
    ///
    /// Fails with `ShapeError` when the rank is outside 2 to 4, an axis
    /// is empty, or a plane side exceeds image dimensions; with
    /// `InvalidInput` when a requested dimension is zero.
    pub fn postprocess_mask(t: &ProbTensor, original_width: u32, original_height: u32) -> (r:
        Result<Mask, RembgError>)
        requires
            t.wf(),
            (original_width as int) * (original_height as int) <= usize::MAX,
        ensures
            match r {
                Ok(m) => {
                    &&& shape_ok(t.dims@)
                    &&& original_width >= 1
                    &&& original_height >= 1
                    &&& m.width == original_width
                    &&& m.height == original_height
                    &&& m.wf()
                    &&& m.data@ == reconstructed_mask(
                        t.dims@,
                        t.data@,
                        original_width as int,
                        original_height as int,
                    )
                },
                Err(e) => {
                    &&& (!shape_ok(t.dims@) || original_width == 0 || original_height == 0)
                    &&& e == (if !shape_ok(t.dims@) {
                        RembgError::ShapeError
                    } else {
                        RembgError::InvalidInput
                    })
                },
            },
    {
        let ndims = t.dims.len();
        if ndims < 2 || ndims > 4 {
            return Err(RembgError::ShapeError);
        }
        let mut i: usize = 0;
        let mut all_pos = true;
        while i < ndims
            invariant
                ndims == t.dims@.len(),
                i <= ndims,
                all_pos ==> forall|j: int| 0 <= j < i ==> #[trigger] t.dims@[j] >= 1,
                !all_pos ==> exists|j: int| 0 <= j < i && #[trigger] t.dims@[j] == 0,
            decreases ndims - i,
        {
            if t.dims[i] == 0 {
                all_pos = false;
                proof {
                    assert(t.dims@[i as int] == 0);
                }
            }
            i = i + 1;
        }
        if !all_pos {
            return Err(RembgError::ShapeError);
        }
        let h = t.dims[ndims - 2];
        let w = t.dims[ndims - 1];
        if h > u32::MAX as usize || w > u32::MAX as usize {
            return Err(RembgError::ShapeError);
        }
        assert(shape_ok(t.dims@));
        if original_width == 0 || original_height == 0 {
            return Err(RembgError::InvalidInput);
        }
        let plane = t.extract_plane();
        let ph = h as u32;
        let pw = w as u32;
        proof {
            lemma_mul_is_commutative(t.plane_h(), t.plane_w());
        }
        if pw == original_width && ph == original_height {
            Ok(Mask { width: original_width, height: original_height, data: plane })
        } else {
            let data = resize_gray(&plane, pw, ph, original_width, original_height);
            Ok(Mask { width: original_width, height: original_height, data })
        }
    }

    /// Composites the original pixels with the mask: colour channels
    /// pass through unchanged, and each pixel's alpha is synthesised
    /// from its own mask value under the threshold policy of `options`.
    ///
    /// Fails with `PreprocessingError` when the mask dimensions do not
    /// match the image dimensions.
    pub fn apply_mask(original: &RgbaImage, mask: &Mask, options: &RemovalOptions) -> (r: Result<
        RgbaImage,
        RembgError,
    >)
        requires
            original.wf(),
            mask.wf(),
        ensures
            match r {
                Ok(out) => {
                    &&& mask.width == original.width
                    &&& mask.height == original.height
                    &&& out.wf()
                    &&& out.width == original.width
                    &&& out.height == original.height
                    &&& out.data@ == removal_image(
                        original.data@,
                        mask.data@,
                        original.npix(),
                        options.threshold,
                        options.binary,
                    )
                },
                Err(e) => {
                    &&& (mask.width != original.width || mask.height != original.height)
                    &&& e == RembgError::PreprocessingError
                },
            },
    {
        if mask.width != original.width || mask.height != original.height {
            return Err(RembgError::PreprocessingError);
        }
        let npix = mask.data.len();
        let nbytes = original.data.len();
        let ghost spec_img = removal_image(
            original.data@,
            mask.data@,
            original.npix(),
            options.threshold,
            options.binary,
        );
        let mut out: Vec<u8> = Vec::new();
        let mut i: usize = 0;
        while i < npix
            invariant
                original.wf(),
                mask.wf(),
                mask.width == original.width,
                mask.height == original.height,
                npix == mask.data@.len(),
                npix == original.npix(),
                nbytes == original.data@.len(),
                4 * npix == nbytes,
                spec_img == removal_image(
                    original.data@,
                    mask.data@,
                    original.npix(),
                    options.threshold,
                    options.binary,
                ),
                spec_img.len() == 4 * npix,
                i <= npix,
                out@.len() == 4 * i,
                forall|k: int| 0 <= k < 4 * i ==> out@[k] == spec_img[k],
            decreases npix - i,
        {
            let ghost pre = out@;
            let base = 4 * i;
            out.push(original.data[base]);
            out.push(original.data[base + 1]);
            out.push(original.data[base + 2]);
            let a = compute_alpha(mask.data[i], options.threshold, options.binary);
            out.push(a);
            proof {
                let ii = i as int;
                lemma_fundamental_div_mod_converse(4 * ii + 0, 4, ii, 0);
                lemma_fundamental_div_mod_converse(4 * ii + 1, 4, ii, 1);
                lemma_fundamental_div_mod_converse(4 * ii + 2, 4, ii, 2);
                lemma_fundamental_div_mod_converse(4 * ii + 3, 4, ii, 3);
                assert forall|k: int| 0 <= k < 4 * (i + 1) implies out@[k] == spec_img[k] by {
                    if k < 4 * ii {
                        assert(pre[k] == spec_img[k]);
                    }
                }
            }
            i = i + 1;
        }
        proof {
            assert(out@ =~= spec_img);
        }
        Ok(RgbaImage { width: original.width, height: original.height, data: out })
    }
}

} // verus!
