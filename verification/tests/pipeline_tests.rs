//! Mask reconstruction, compositing and the composed pipeline tail.

use rembg::error::RembgError;
use rembg::image_processor::ImageProcessor;
use rembg::options::RemovalOptions;
use rembg::raster::{Mask, RgbaImage};
use rembg::rembg::compose_result;
use rembg::tensor::ProbTensor;

fn quantize_sigmoid(logit: f32) -> u8 {
    let p = 1.0 / (1.0 + (-logit).exp());
    (p * 255.0).round().clamp(0.0, 255.0) as u8
}

fn tensor(dims: Vec<usize>, data: Vec<u8>) -> ProbTensor {
    ProbTensor::new(dims, data).unwrap()
}

#[test]
fn tensor_new_refuses_mismatched_buffer() {
    assert!(ProbTensor::new(vec![2, 2], vec![0u8; 3]).is_none());
    assert!(ProbTensor::new(vec![2, 2], vec![0u8; 4]).is_some());
    assert!(ProbTensor::new(vec![3, 0], vec![]).is_some());
    assert!(ProbTensor::new(vec![3, 0], vec![1u8]).is_none());
}

#[test]
fn zero_logits_reconstruct_to_half_gray() {
    // sigmoid(0) = 0.5, quantised to round(127.5) = 128.
    let v = quantize_sigmoid(0.0);
    assert_eq!(v, 128);
    let t = tensor(vec![1, 1, 2, 2], vec![v; 4]);
    let mask = ImageProcessor::postprocess_mask(&t, 2, 2).unwrap();
    assert_eq!(mask.width, 2);
    assert_eq!(mask.height, 2);
    assert_eq!(mask.data, vec![128u8; 4]);
}

#[test]
fn reconstruct_at_own_size_is_a_straight_copy() {
    let t = tensor(vec![2, 3], vec![10, 20, 30, 40, 50, 60]);
    let mask = ImageProcessor::postprocess_mask(&t, 3, 2).unwrap();
    assert_eq!(mask.data, vec![10, 20, 30, 40, 50, 60]);
}

#[test]
fn reconstruct_reduces_leading_axes_to_index_zero() {
    // Shape (2, 2, 1, 2): the plane is the first 1 * 2 elements.
    let t = tensor(vec![2, 2, 1, 2], vec![9, 8, 7, 6, 5, 4, 3, 2]);
    let mask = ImageProcessor::postprocess_mask(&t, 2, 1).unwrap();
    assert_eq!(mask.data, vec![9, 8]);
}

#[test]
fn reconstruct_refuses_bad_ranks() {
    let t = tensor(vec![4], vec![1, 2, 3, 4]);
    assert_eq!(
        ImageProcessor::postprocess_mask(&t, 2, 2).unwrap_err(),
        RembgError::ShapeError
    );
    let t = tensor(vec![1, 1, 1, 2, 2], vec![1, 2, 3, 4]);
    assert_eq!(
        ImageProcessor::postprocess_mask(&t, 2, 2).unwrap_err(),
        RembgError::ShapeError
    );
}

#[test]
fn reconstruct_refuses_empty_axes_and_zero_targets() {
    let t = tensor(vec![1, 0, 2, 2], vec![]);
    assert_eq!(
        ImageProcessor::postprocess_mask(&t, 2, 2).unwrap_err(),
        RembgError::ShapeError
    );
    let t = tensor(vec![2, 2], vec![1, 2, 3, 4]);
    assert_eq!(
        ImageProcessor::postprocess_mask(&t, 0, 2).unwrap_err(),
        RembgError::InvalidInput
    );
    assert_eq!(
        ImageProcessor::postprocess_mask(&t, 2, 0).unwrap_err(),
        RembgError::InvalidInput
    );
}

#[test]
fn reconstruct_resizes_to_requested_dimensions() {
    // A genuine resample: if the resampler handed its input back, the
    // buffer length could not match the target.
    let t = tensor(vec![1, 1, 2, 2], vec![255, 255, 0, 0]);
    let mask = ImageProcessor::postprocess_mask(&t, 4, 4).unwrap();
    assert_eq!(mask.width, 4);
    assert_eq!(mask.height, 4);
    assert_eq!(mask.data.len(), 16);
    // The top edge stays bright and the bottom edge stays dark.
    assert!(mask.data[0] >= 200 && mask.data[3] >= 200);
    assert!(mask.data[12] <= 55 && mask.data[15] <= 55);
}

#[test]
fn apply_mask_passes_rgb_and_synthesises_alpha() {
    let img = RgbaImage::from_raw(2, 1, vec![10, 20, 30, 99, 40, 50, 60, 99]).unwrap();
    let mask = Mask::from_raw(2, 1, vec![255, 0]).unwrap();
    let opts = RemovalOptions::new().with_threshold(160);
    let out = ImageProcessor::apply_mask(&img, &mask, &opts).unwrap();
    assert_eq!(out.data, vec![10, 20, 30, 255, 40, 50, 60, 0]);
}

#[test]
fn apply_mask_refuses_mismatched_dimensions() {
    let img = RgbaImage::from_raw(1, 1, vec![0, 0, 0, 0]).unwrap();
    let mask = Mask::from_raw(2, 1, vec![0, 0]).unwrap();
    let opts = RemovalOptions::new();
    assert_eq!(
        ImageProcessor::apply_mask(&img, &mask, &opts).unwrap_err(),
        RembgError::PreprocessingError
    );
}

#[test]
fn preprocess_layout_and_errors() {
    let img = RgbaImage::from_raw(2, 2, vec![7; 16]).unwrap();
    assert_eq!(
        ImageProcessor::preprocess_for_model(&img, 0, 4).unwrap_err(),
        RembgError::InvalidInput
    );
    let t = ImageProcessor::preprocess_for_model(&img, 4, 4).unwrap();
    assert_eq!(t.width, 4);
    assert_eq!(t.height, 4);
    assert_eq!(t.data.len(), 48);
    // A uniform image stays uniform through resampling, whatever the
    // filter weights are.
    assert!(t.data.iter().all(|&v| v == 7));
}

#[test]
fn end_to_end_binary_cutout_from_logit_tensor() {
    // Logits [[10, 10], [-10, -10]] reconstructed to a 4x4 original:
    // in binary mode at threshold 128 the top row ends opaque, the
    // bottom row transparent.
    let q = vec![
        quantize_sigmoid(10.0),
        quantize_sigmoid(10.0),
        quantize_sigmoid(-10.0),
        quantize_sigmoid(-10.0),
    ];
    assert_eq!(q, vec![255, 255, 0, 0]);
    let t = tensor(vec![1, 1, 2, 2], q);
    let img = RgbaImage::from_raw(4, 4, vec![255; 64]).unwrap();
    let opts = RemovalOptions::new().with_threshold(128).with_binary_mode(true);
    let res = compose_result(&img, &t, &opts).unwrap();
    assert_eq!(res.image().width, 4);
    assert_eq!(res.mask().width, 4);
    for x in 0..4usize {
        // Top row: alpha 255; bottom row: alpha 0; colours untouched.
        assert_eq!(res.image.data[4 * x + 3], 255);
        assert_eq!(res.image.data[4 * (12 + x) + 3], 0);
        assert_eq!(res.image.data[4 * x], 255);
    }
}

#[test]
fn compose_with_sticker_on_all_background_is_fully_transparent() {
    // Every logit far negative: the mask is 0 everywhere, the cutout is
    // empty, and the border pass finds no sticker body to outline.
    let t = tensor(vec![1, 1, 2, 2], vec![0, 0, 0, 0]);
    let img = RgbaImage::from_raw(4, 4, vec![255; 64]).unwrap();
    let opts = RemovalOptions::new().with_sticker(true);
    let res = compose_result(&img, &t, &opts).unwrap();
    for p in 0..16 {
        assert_eq!(res.image.data[4 * p + 3], 0);
    }
}

#[test]
fn compose_result_propagates_shape_errors() {
    let t = tensor(vec![4], vec![1, 2, 3, 4]);
    let img = RgbaImage::from_raw(2, 2, vec![0; 16]).unwrap();
    let opts = RemovalOptions::new();
    assert_eq!(
        compose_result(&img, &t, &opts).unwrap_err(),
        RembgError::ShapeError
    );
}
