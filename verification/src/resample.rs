//! Trusted wrappers around the `image` crate's Lanczos resampling.
//!
//! The model was trained on smoothly downsampled inputs, so both the
//! preprocessor and the mask reconstructor resample with the 3-lobe
//! Lanczos filter. What the filter computes is named, not restated: the
//! result is a pure function of the samples and the four dimensions.

use vstd::prelude::*;

verus! {

/// What `image::imageops::resize` with `FilterType::Lanczos3` returns
/// for a single-channel plane of `w * h` samples resized to `tw * th`.
pub uninterp spec fn lanczos_gray(data: Seq<u8>, w: int, h: int, tw: int, th: int) -> Seq<u8>;

/// What `image::imageops::resize` with `FilterType::Lanczos3` returns
/// for an interleaved RGB buffer of `w * h` pixels resized to `tw * th`.
pub uninterp spec fn lanczos_rgb(data: Seq<u8>, w: int, h: int, tw: int, th: int) -> Seq<u8>;

/// Relies on `image::imageops::resize` with `FilterType::Lanczos3` on a
/// grayscale buffer: the output covers the target dimensions exactly and
/// depends on the input samples and dimensions alone.
#[verifier::external_body]
pub(crate) fn resize_gray(data: &Vec<u8>, w: u32, h: u32, tw: u32, th: u32) -> (r: Vec<u8>)
    requires
        data@.len() == (w as int) * (h as int),
        w >= 1,
        h >= 1,
        tw >= 1,
        th >= 1,
        (tw as int) * (th as int) <= usize::MAX,
    ensures
        r@ == lanczos_gray(data@, w as int, h as int, tw as int, th as int),
        r@.len() == (tw as int) * (th as int),
{
    let img = image::GrayImage::from_raw(w, h, data.clone()).unwrap();
    let out = image::imageops::resize(&img, tw, th, image::imageops::FilterType::Lanczos3);
    out.into_raw()
}

/// Relies on `image::imageops::resize` with `FilterType::Lanczos3` on an
/// interleaved RGB buffer: the output covers the target dimensions
/// exactly and depends on the input samples and dimensions alone.
#[verifier::external_body]
pub(crate) fn resize_rgb(data: &Vec<u8>, w: u32, h: u32, tw: u32, th: u32) -> (r: Vec<u8>)
    requires
        data@.len() == 3 * ((w as int) * (h as int)),
        w >= 1,
        h >= 1,
        tw >= 1,
        th >= 1,
        3 * ((tw as int) * (th as int)) <= usize::MAX,
    ensures
        r@ == lanczos_rgb(data@, w as int, h as int, tw as int, th as int),
        r@.len() == 3 * ((tw as int) * (th as int)),
{
    let img = image::RgbImage::from_raw(w, h, data.clone()).unwrap();
    let out = image::imageops::resize(&img, tw, th, image::imageops::FilterType::Lanczos3);
    out.into_raw()
}

} // verus!
