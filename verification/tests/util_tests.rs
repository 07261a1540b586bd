//! Options, result plumbing, the mask path helper, the transparent mask
//! expansion and the heatmap path.

use rembg::error::RembgError;
use rembg::heatmap;
use rembg::options::RemovalOptions;
use rembg::paths::generate_mask_path;
use rembg::raster::{create_transparent_mask, Mask, RgbaImage};
use rembg::result::RemovalResult;
use rembg::tensor::ProbTensor;

#[test]
fn options_defaults_and_builders() {
    let d = RemovalOptions::default();
    assert_eq!(d.threshold, 160);
    assert!(!d.binary);
    assert!(!d.sticker);
    let o = RemovalOptions::new()
        .with_threshold(128)
        .with_binary_mode(true)
        .with_sticker(true);
    assert_eq!(o.threshold, 128);
    assert!(o.binary);
    assert!(o.sticker);
}

#[test]
fn result_accessors_return_the_parts() {
    let image = RgbaImage::from_raw(1, 1, vec![1, 2, 3, 4]).unwrap();
    let mask = Mask::from_raw(1, 1, vec![9]).unwrap();
    let res = RemovalResult { image, mask };
    assert_eq!(res.image().data, vec![1, 2, 3, 4]);
    assert_eq!(res.mask().data, vec![9]);
    let (img, msk) = res.into_parts();
    assert_eq!(img.data, vec![1, 2, 3, 4]);
    assert_eq!(msk.data, vec![9]);
}

fn mask_path(s: &str) -> String {
    let bytes = generate_mask_path(&s.as_bytes().to_vec());
    String::from_utf8(bytes).unwrap()
}

#[test]
fn mask_path_inserts_before_extension() {
    assert_eq!(mask_path("out/img.png"), "out/img_mask.png");
    assert_eq!(mask_path("a.b.c"), "a.b_mask.c");
    assert_eq!(mask_path("dir.x/name"), "dir.x/name_mask.png");
}

#[test]
fn mask_path_defaults() {
    assert_eq!(mask_path("foo"), "foo_mask.png");
    assert_eq!(mask_path(""), "output_mask.png");
    assert_eq!(mask_path(".hidden"), ".hidden_mask.png");
    assert_eq!(mask_path("foo."), "foo_mask.");
    assert_eq!(mask_path("dir/"), "dir/output_mask.png");
}

#[test]
fn transparent_mask_is_white_with_mask_alpha() {
    let mask = Mask::from_raw(2, 1, vec![0, 200]).unwrap();
    let img = create_transparent_mask(&mask);
    assert_eq!(img.width, 2);
    assert_eq!(img.height, 1);
    assert_eq!(img.data, vec![255, 255, 255, 0, 255, 255, 255, 200]);
}

/// A toy colour ramp: entry `v` maps to `(v, 255 - v, 7)`.
fn toy_lut() -> Vec<u8> {
    let mut lut = Vec::with_capacity(768);
    for v in 0..=255u8 {
        lut.push(v);
        lut.push(255 - v);
        lut.push(7);
    }
    lut
}

#[test]
fn heatmap_maps_probabilities_through_the_ramp() {
    let t = ProbTensor::new(vec![1, 1], vec![42]).unwrap();
    let img = heatmap::postprocess_mask(&t, &toy_lut(), 1, 1).unwrap();
    assert_eq!(img.data, vec![42, 213, 7]);
}

#[test]
fn heatmap_resizes_to_target() {
    let t = ProbTensor::new(vec![1, 1, 2, 2], vec![0, 255, 255, 0]).unwrap();
    let img = heatmap::postprocess_mask(&t, &toy_lut(), 4, 4).unwrap();
    assert_eq!(img.width, 4);
    assert_eq!(img.height, 4);
    assert_eq!(img.data.len(), 48);
    // The blue channel of the toy ramp is constant, and stays so.
    for p in 0..16 {
        assert_eq!(img.data[3 * p + 2], 7);
    }
}

#[test]
fn heatmap_propagates_shape_errors() {
    let t = ProbTensor::new(vec![4], vec![1, 2, 3, 4]).unwrap();
    assert_eq!(
        heatmap::postprocess_mask(&t, &toy_lut(), 2, 2).unwrap_err(),
        RembgError::ShapeError
    );
}
