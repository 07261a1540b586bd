//! The border cleaner: draws a soft, black outline strictly outside an
//! already-cut sticker, using a distance-field feather, and composites
//! it behind the artwork.

use vstd::prelude::*;
use vstd::arithmetic::div_mod::{
    lemma_fundamental_div_mod_converse, lemma_multiply_divide_lt,
};
use vstd::arithmetic::mul::{
    lemma_mul_inequality, lemma_mul_nonnegative, lemma_mul_upper_bound,
};
use crate::dist::{dist_sq_field, sq_distance_field};
use crate::raster::{rgba_chan, RgbaImage};

verus! {

/// A pixel counts as sticker body when its alpha reaches this noise
/// floor, which separates the artwork from compositing artifacts.
pub open spec fn inside_spec(a: u8) -> bool {
    a >= 16
}

/// The 0/255 inside mask derived from the alpha channel of an RGBA
/// buffer of `npix` pixels.
pub open spec fn inside_mask_spec(data: Seq<u8>, npix: int) -> Seq<u8> {
    Seq::new(
        npix as nat,
        |i: int|
            if inside_spec(rgba_chan(data, i, 3)) {
                255u8
            } else {
                0u8
            },
    )
}

/// Outline strength over the squared distance to the sticker body.
///
/// Over real distance `d` the profile is full strength for `d` up to the
/// stroke width of 6 pixels, a cubic smoothstep falloff across the
/// feather band `(6, 7.5)`, and zero beyond. Distances are quantised to
/// whole pixels by rounding, which over integer squared distances gives
/// three bands: `d2 <= 42` rounds to a distance of at most 6 (full
/// strength), `43..=56` rounds to exactly 7 — where the falloff
/// evaluates to `1 - smoothstep(6, 7.5, 7) = 7/27`, i.e.
/// `round(255 * 7 / 27) = 66` — and `d2 >= 57` rounds to 8 or more
/// (`7.5 * 7.5 = 56.25`). Profile values below 3 would be snapped to 0
/// to avoid isolated near-invisible pixels; both band values clear that
/// floor, so the snap never fires with these constants.
pub open spec fn outline_alpha_sq(d2: u64) -> u8 {
    if d2 <= 42 {
        255
    } else if d2 <= 56 {
        66
    } else {
        0
    }
}

/// The outline layer behind a pixel: nothing behind the sticker body,
/// elsewhere the distance profile.
pub open spec fn border_coat(a: u8, d2: u64) -> u8 {
    if inside_spec(a) {
        0
    } else {
        outline_alpha_sq(d2)
    }
}

/// Alpha of source-over compositing a pixel of alpha `a` over the black
/// outline of alpha `b`, in 1/255 units, rounded to nearest:
/// `round(255 * (a/255 + (b/255) * (1 - a/255)))`.
pub open spec fn blend_alpha(a: u8, b: u8) -> u8 {
    let denom = 255 * (a as int) + (b as int) * (255 - (a as int));
    ((2 * denom + 255) / 510) as u8
}

/// One colour channel of the same compositing: the premultiplied blend
/// of source channel `c` over the black outline, divided by the
/// resulting alpha and rounded; black where the resulting alpha is zero.
pub open spec fn blend_channel(c: u8, a: u8, b: u8) -> u8 {
    let denom = 255 * (a as int) + (b as int) * (255 - (a as int));
    if denom == 0 {
        0
    } else {
        ((2 * ((c as int) * (a as int) * 255) + denom) / (2 * denom)) as u8
    }
}

/// A colour channel of the cleaned pixel.
pub open spec fn clean_chan(c: u8, a: u8, d2: u64) -> u8 {
    blend_channel(c, a, border_coat(a, d2))
}

/// The alpha of the cleaned pixel.
pub open spec fn clean_alpha(a: u8, d2: u64) -> u8 {
    blend_alpha(a, border_coat(a, d2))
}

/// The whole cleaned RGBA buffer for a `w * h` image.
pub open spec fn cleaned_image(data: Seq<u8>, w: int, h: int) -> Seq<u8> {
    let d2s = dist_sq_field(inside_mask_spec(data, w * h), w, h);
    Seq::new(
        (4 * (w * h)) as nat,
        |k: int|
            {
                let a = rgba_chan(data, k / 4, 3);
                if k % 4 == 3 {
                    clean_alpha(a, d2s[k / 4])
                } else {
                    clean_chan(rgba_chan(data, k / 4, k % 4), a, d2s[k / 4])
                }
            },
    )
}

/// Reads one channel of [`cleaned_image`] back in pixel terms.
pub proof fn lemma_cleaned_image_chan(data: Seq<u8>, w: int, h: int, i: int, c: int)
    requires
        0 <= i < w * h,
        0 <= c < 4,
    ensures
        rgba_chan(cleaned_image(data, w, h), i, c) == (if c == 3 {
            clean_alpha(
                rgba_chan(data, i, 3),
                dist_sq_field(inside_mask_spec(data, w * h), w, h)[i],
            )
        } else {
            clean_chan(
                rgba_chan(data, i, c),
                rgba_chan(data, i, 3),
                dist_sq_field(inside_mask_spec(data, w * h), w, h)[i],
            )
        }),
{
    lemma_fundamental_div_mod_converse(4 * i + c, 4, i, c);
}

/// Law: the border pass leaves every pixel of the sticker body — alpha
/// at or above the noise floor — exactly as it was: the outline only
/// ever adds pixels strictly outside the body.
pub proof fn lemma_clean_inside_unchanged(c: u8, a: u8, d2: u64)
    requires
        inside_spec(a),
    ensures
        clean_chan(c, a, d2) == c,
        clean_alpha(a, d2) == a,
{
    let ai = a as int;
    let ci = c as int;
    assert(clean_alpha(a, d2) == a) by {
        assert(2 * (255 * ai) + 255 == ai * 510 + 255);
        lemma_fundamental_div_mod_converse(2 * (255 * ai) + 255, 510, ai, 255);
    }
    assert(clean_chan(c, a, d2) == c) by {
        assert(2 * (ci * ai * 255) + 255 * ai == ci * (2 * (255 * ai)) + 255 * ai)
            by (nonlinear_arith);
        assert(0 <= 255 * ai < 2 * (255 * ai));
        lemma_fundamental_div_mod_converse(
            2 * (ci * ai * 255) + 255 * ai,
            2 * (255 * ai),
            ci,
            255 * ai,
        );
    }
}

/// Law: a fully transparent pixel whose squared distance to the sticker
/// body is at least 57 — that is, at least stroke + feather = 7.5 pixels
/// away — is fully transparent and black in the output.
pub proof fn lemma_clean_far_outside_transparent(c: u8, d2: u64)
    requires
        57 <= d2,
    ensures
        clean_alpha(0, d2) == 0,
        clean_chan(c, 0, d2) == 0,
{
}

/// Law, over a whole `w * h` image: a pixel of the sticker body keeps
/// every channel; a fully transparent pixel whose squared distance to
/// the body is at least 57 — at least stroke + feather = 7.5 pixels —
/// keeps alpha zero.
pub proof fn lemma_border_invariant(data: Seq<u8>, w: int, h: int, i: int, c: int)
    requires
        0 <= i < w * h,
        0 <= c < 4,
    ensures
        inside_spec(rgba_chan(data, i, 3)) ==> rgba_chan(cleaned_image(data, w, h), i, c)
            == rgba_chan(data, i, c),
        (rgba_chan(data, i, 3) == 0 && dist_sq_field(inside_mask_spec(data, w * h), w, h)[i]
            >= 57 && c == 3) ==> rgba_chan(cleaned_image(data, w, h), i, c) == 0,
{
    let a = rgba_chan(data, i, 3);
    let d2 = dist_sq_field(inside_mask_spec(data, w * h), w, h)[i];
    lemma_cleaned_image_chan(data, w, h, i, c);
    if inside_spec(a) {
        lemma_clean_inside_unchanged(rgba_chan(data, i, c), a, d2);
    } else if a == 0 && d2 >= 57 {
        lemma_clean_far_outside_transparent(rgba_chan(data, i, c), d2);
    }
}

/// Computes [`blend_alpha`] in executable integer arithmetic.
fn blend_alpha_exec(a: u8, b: u8) -> (r: u8)
    ensures
        r == blend_alpha(a, b),
{
    proof {
        lemma_mul_inequality(b as int, 255, 255 - (a as int));
        lemma_mul_nonnegative(b as int, 255 - (a as int));
        lemma_multiply_divide_lt(
            2 * (255 * (a as int) + (b as int) * (255 - (a as int))) + 255,
            510,
            256,
        );
    }
    let denom: u32 = 255 * (a as u32) + (b as u32) * (255 - (a as u32));
    ((2 * denom + 255) / 510) as u8
}

/// Computes [`blend_channel`] in executable integer arithmetic.
fn blend_channel_exec(c: u8, a: u8, b: u8) -> (r: u8)
    ensures
        r == blend_channel(c, a, b),
{
    proof {
        lemma_mul_inequality(b as int, 255, 255 - (a as int));
        lemma_mul_nonnegative(b as int, 255 - (a as int));
        lemma_mul_upper_bound(c as int, 255, a as int, 255);
        lemma_mul_nonnegative(c as int, a as int);
    }
    let denom: u32 = 255 * (a as u32) + (b as u32) * (255 - (a as u32));
    if denom == 0 {
        0
    } else {
        let num: u32 = 2 * ((c as u32) * (a as u32) * 255) + denom;
        proof {
            lemma_mul_inequality(c as int, 255, a as int);
            assert(num < (2 * denom) * 256);
            lemma_multiply_divide_lt(num as int, 2 * (denom as int), 256);
        }
        (num / (2 * denom)) as u8
    }
}

/// Cleans the border of a cut-out sticker: computes the inside mask at
/// the alpha noise floor, measures each outside pixel's distance to the
/// body with an exact Euclidean distance transform, shapes the outline
/// alpha with the stroke-and-feather profile, and composites the black
/// outline behind the artwork with source-over blending. Inside pixels
/// pass through unchanged.
pub fn clean_sticker_border(img: &RgbaImage) -> (out: RgbaImage)
    requires
        img.wf(),
    ensures
        out.wf(),
        out.width == img.width,
        out.height == img.height,
        out.data@ == cleaned_image(img.data@, img.width as int, img.height as int),
{
    let w = img.width;
    let h = img.height;
    let ghost spec_out = cleaned_image(img.data@, w as int, h as int);
    if w == 0 || h == 0 {
        let out = RgbaImage { width: w, height: h, data: Vec::new() };
        proof {
            assert(out.data@ =~= spec_out);
        }
        return out;
    }
    let nbytes = img.data.len();
    let npix = (w as usize) * (h as usize);

    // The 0/255 inside mask at the alpha noise floor.
    let ghost spec_mask = inside_mask_spec(img.data@, npix as int);
    let mut inside: Vec<u8> = Vec::new();
    let mut i: usize = 0;
    while i < npix
        invariant
            img.wf(),
            nbytes == img.data@.len(),
            npix == img.npix(),
            spec_mask == inside_mask_spec(img.data@, npix as int),
            spec_mask.len() == npix,
            i <= npix,
            inside@.len() == i,
            forall|j: int| 0 <= j < i ==> inside@[j] == spec_mask[j],
        decreases npix - i,
    {
        let a = img.data[4 * i + 3];
        if a >= 16 {
            inside.push(255);
        } else {
            inside.push(0);
        }
        i = i + 1;
    }
    proof {
        assert(inside@ =~= spec_mask);
    }

    // Exact squared Euclidean distances to the inside region.
    let d2v = sq_distance_field(&inside, w, h);
    let ghost spec_d2 = dist_sq_field(spec_mask, w as int, h as int);

    // Composite the outline behind each pixel.
    let mut out: Vec<u8> = Vec::new();
    let mut i: usize = 0;
    while i < npix
        invariant
            img.wf(),
            nbytes == img.data@.len(),
            npix == img.npix(),
            4 * npix == nbytes,
            d2v@ == spec_d2,
            d2v@.len() == npix,
            spec_out == cleaned_image(img.data@, img.width as int, img.height as int),
            spec_out.len() == 4 * npix,
            spec_d2 == dist_sq_field(
                inside_mask_spec(img.data@, npix as int),
                img.width as int,
                img.height as int,
            ),
            i <= npix,
            out@.len() == 4 * i,
            forall|k: int| 0 <= k < 4 * i ==> out@[k] == spec_out[k],
        decreases npix - i,
    {
        let ghost pre = out@;
        let base = 4 * i;
        let a = img.data[base + 3];
        let d2 = d2v[i];
        let b: u8 = if a >= 16 {
            0
        } else {
            if d2 <= 42 {
                255
            } else if d2 <= 56 {
                66
            } else {
                0
            }
        };
        proof {
            assert(b == border_coat(a, spec_d2[i as int]));
        }
        out.push(blend_channel_exec(img.data[base], a, b));
        out.push(blend_channel_exec(img.data[base + 1], a, b));
        out.push(blend_channel_exec(img.data[base + 2], a, b));
        out.push(blend_alpha_exec(a, b));
        proof {
            let ii = i as int;
            lemma_fundamental_div_mod_converse(4 * ii + 0, 4, ii, 0);
            lemma_fundamental_div_mod_converse(4 * ii + 1, 4, ii, 1);
            lemma_fundamental_div_mod_converse(4 * ii + 2, 4, ii, 2);
            lemma_fundamental_div_mod_converse(4 * ii + 3, 4, ii, 3);
            assert forall|k: int| 0 <= k < 4 * (i + 1) implies out@[k] == spec_out[k] by {
                if k < 4 * ii {
                    assert(pre[k] == spec_out[k]);
                }
            }
        }
        i = i + 1;
    }
    proof {
        assert(out@ =~= spec_out);
    }
    RgbaImage { width: w, height: h, data: out }
}

} // verus!
