//! Threshold-driven alpha synthesis: the per-pixel rule that turns a mask
//! value into the transparency of the composited output.

use vstd::prelude::*;
use vstd::arithmetic::div_mod::{
    lemma_div_is_ordered, lemma_div_pos_is_pos, lemma_fundamental_div_mod_converse,
    lemma_multiply_divide_lt,
};
use crate::raster::rgba_chan;

verus! {

/// The alpha produced for mask value `m` under threshold `t`.
///
/// Binary mode is a hard cut at the threshold. Smooth mode maps the band
/// `(t, 255]` linearly onto alpha, rounding to the nearest integer with
/// halves rounding up, so `m == t` gives 0 and `m == 255` gives 255;
/// everything at or below `t` is fully transparent. At `t == 255` the
/// ramp degenerates: only `m == 255` is opaque, which avoids a division
/// by zero.
pub open spec fn alpha_value(m: u8, t: u8, binary: bool) -> u8 {
    if binary {
        if m >= t {
            255
        } else {
            0
        }
    } else if t == 255 {
        if m == 255 {
            255
        } else {
            0
        }
    } else if m <= t {
        0
    } else {
        // round((m - t) * 255 / (255 - t)), written with integers:
        // round(p / q) == (2 * p + q) / (2 * q) for q > 0.
        (((m - t) * 255 * 2 + (255 - t)) / (2 * (255 - t))) as u8
    }
}

/// The smooth-mode ramp value stays inside a byte.
proof fn lemma_ramp_fits(m: u8, t: u8)
    requires
        t < 255,
        m > t,
    ensures
        0 <= (m - t) * 255 * 2 + (255 - t),
        ((m - t) * 255 * 2 + (255 - t)) / (2 * (255 - t)) < 256,
        0 <= ((m - t) * 255 * 2 + (255 - t)) / (2 * (255 - t)),
{
    let num = (m - t) * 255 * 2 + (255 - t);
    let den = 2 * (255 - t);
    assert(num < den * 256);
    lemma_multiply_divide_lt(num, den, 256);
    lemma_div_pos_is_pos(num, den);
}

/// Computes [`alpha_value`] in executable integer arithmetic.
pub fn compute_alpha(m: u8, t: u8, binary: bool) -> (a: u8)
    ensures
        a == alpha_value(m, t, binary),
{
    if binary {
        if m >= t {
            255
        } else {
            0
        }
    } else if t == 255 {
        if m == 255 {
            255
        } else {
            0
        }
    } else if m <= t {
        0
    } else {
        let num: u32 = (m - t) as u32 * 510 + (255 - t) as u32;
        let den: u32 = 2 * (255 - t) as u32;
        proof {
            lemma_ramp_fits(m, t);
        }
        (num / den) as u8
    }
}

/// Law: in smooth mode below the degenerate threshold, the ramp is zero
/// at and below the threshold, full for a fully opaque mask value, and
/// monotonic, non-decreasing in the mask value.
pub proof fn lemma_smooth_ramp(t: u8, m: u8, m1: u8, m2: u8)
    requires
        t < 255,
        m1 <= m2,
    ensures
        m <= t ==> alpha_value(m, t, false) == 0,
        alpha_value(255, t, false) == 255,
        alpha_value(m1, t, false) <= alpha_value(m2, t, false),
{
    let d = 255 - (t as int);
    assert(alpha_value(255, t, false) == 255) by {
        let num = (255 - t) * 255 * 2 + (255 - t);
        assert(num == 255 * (2 * d) + d);
        lemma_fundamental_div_mod_converse(num, 2 * d, 255, d);
    }
    if m1 > t {
        lemma_ramp_fits(m1, t);
        lemma_ramp_fits(m2, t);
        let num1 = (m1 - t) * 255 * 2 + (255 - t);
        let num2 = (m2 - t) * 255 * 2 + (255 - t);
        lemma_div_is_ordered(num1, num2, 2 * d);
    } else if m2 > t {
        lemma_ramp_fits(m2, t);
    }
}

/// Law: in binary mode the alpha is two-valued, and is full exactly when
/// the mask value reaches the threshold.
pub proof fn lemma_binary_cut(m: u8, t: u8)
    ensures
        alpha_value(m, t, true) == 0 || alpha_value(m, t, true) == 255,
        alpha_value(m, t, true) == 255 <==> m >= t,
{
}

/// Law: at the degenerate threshold in smooth mode, only a fully opaque
/// mask value yields full alpha; everything else is fully transparent.
pub proof fn lemma_degenerate_threshold(m: u8)
    ensures
        alpha_value(m, 255, false) == (if m == 255 {
            255u8
        } else {
            0u8
        }),
{
}

/// The composited RGBA buffer for `npix` pixels: colour channels pass
/// through from the source, the alpha channel is synthesised from the
/// mask under the threshold policy.
pub open spec fn removal_image(
    orig: Seq<u8>,
    mask: Seq<u8>,
    npix: int,
    t: u8,
    binary: bool,
) -> Seq<u8> {
    Seq::new(
        (4 * npix) as nat,
        |k: int|
            if k % 4 == 3 {
                alpha_value(mask[k / 4], t, binary)
            } else {
                orig[k]
            },
    )
}

/// Reads one channel of [`removal_image`] back in pixel terms.
pub proof fn lemma_removal_image_chan(
    orig: Seq<u8>,
    mask: Seq<u8>,
    npix: int,
    t: u8,
    binary: bool,
    i: int,
    c: int,
)
    requires
        0 <= i < npix,
        0 <= c < 4,
    ensures
        rgba_chan(removal_image(orig, mask, npix, t, binary), i, c) == (if c == 3 {
            alpha_value(mask[i], t, binary)
        } else {
            rgba_chan(orig, i, c)
        }),
{
    lemma_fundamental_div_mod_converse(4 * i + c, 4, i, c);
}

} // verus!
