//! Trusted wrapper around imageproc's exact Euclidean distance
//! transform, used by the border cleaner.
//!
//! Squared distances between pixel centres are integers, so the field is
//! carried as `u64` values and the outline profile over it stays in
//! integer arithmetic.

use vstd::prelude::*;

verus! {

/// What `imageproc::distance_transform::euclidean_squared_distance_transform`
/// returns for a `w * h` mask: per pixel, the squared Euclidean distance
/// to the nearest non-zero pixel, as a `u64` (saturated; with no
/// non-zero pixel anywhere the field is infinite and saturates to
/// `u64::MAX`).
pub uninterp spec fn dist_sq_field(mask: Seq<u8>, w: int, h: int) -> Seq<u64>;

/// Relies on `imageproc::distance_transform::euclidean_squared_distance_transform`:
/// distances are measured to the nearest foreground pixel, where a pixel
/// is foreground if it has non-zero intensity, so a pixel reads 0
/// exactly when it is itself foreground.
#[verifier::external_body]
pub(crate) fn sq_distance_field(mask: &Vec<u8>, w: u32, h: u32) -> (r: Vec<u64>)
    requires
        mask@.len() == (w as int) * (h as int),
        w >= 1,
        h >= 1,
    ensures
        r@ == dist_sq_field(mask@, w as int, h as int),
        r@.len() == mask@.len(),
        forall|i: int| 0 <= i < mask@.len() ==> ((mask@[i] != 0) <==> r@[i] == 0),
{
    let img = image::GrayImage::from_raw(w, h, mask.clone()).unwrap();
    let field = imageproc::distance_transform::euclidean_squared_distance_transform(&img);
    field.pixels().map(|p| p.0[0] as u64).collect()
}

} // verus!
