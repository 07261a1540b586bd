//! The sticker border pass on concrete images.

use rembg::clean_sticker_border::clean_sticker_border;
use rembg::raster::RgbaImage;

/// A transparent canvas with an opaque white square on it.
fn canvas_with_square(size: u32, lo: u32, hi: u32) -> RgbaImage {
    let n = (size * size) as usize;
    let mut data = vec![0u8; 4 * n];
    for y in lo..hi {
        for x in lo..hi {
            let i = (y * size + x) as usize;
            data[4 * i] = 255;
            data[4 * i + 1] = 255;
            data[4 * i + 2] = 255;
            data[4 * i + 3] = 255;
        }
    }
    RgbaImage::from_raw(size, size, data).unwrap()
}

fn pixel(img: &RgbaImage, x: u32, y: u32) -> [u8; 4] {
    let i = (y * img.width + x) as usize;
    [
        img.data[4 * i],
        img.data[4 * i + 1],
        img.data[4 * i + 2],
        img.data[4 * i + 3],
    ]
}

#[test]
fn inside_pixels_pass_through_unchanged() {
    let img = canvas_with_square(24, 10, 14);
    let out = clean_sticker_border(&img);
    for y in 10..14 {
        for x in 10..14 {
            assert_eq!(pixel(&out, x, y), pixel(&img, x, y));
        }
    }
}

#[test]
fn pixel_at_noise_floor_counts_as_inside() {
    let mut img = canvas_with_square(24, 10, 14);
    let i = (10 * 24 + 10) as usize;
    img.data[4 * i + 3] = 16;
    let out = clean_sticker_border(&img);
    assert_eq!(pixel(&out, 10, 10), [255, 255, 255, 16]);
}

#[test]
fn outline_square_scenario() {
    // A 4x4 opaque white square centred on a transparent canvas: the
    // outline pixels next to the square come out fully opaque black,
    // and the far canvas corner, well past stroke + feather, stays
    // fully transparent.
    let img = canvas_with_square(24, 10, 14);
    let out = clean_sticker_border(&img);
    // Immediately adjacent, distance 1.
    assert_eq!(pixel(&out, 9, 10), [0, 0, 0, 255]);
    assert_eq!(pixel(&out, 10, 9), [0, 0, 0, 255]);
    // Still within the 6-pixel stroke, distance 6.
    assert_eq!(pixel(&out, 4, 10), [0, 0, 0, 255]);
    // The far corner: squared distance to (10, 10) is 200.
    assert_eq!(pixel(&out, 0, 0), [0, 0, 0, 0]);
    assert_eq!(pixel(&out, 23, 23), [0, 0, 0, 0]);
}

#[test]
fn feather_band_gets_the_cubic_falloff_value() {
    // A single inside pixel; a pixel 7 away (squared distance 49) sits
    // in the feather band, where the profile value is
    // round(255 * (1 - smoothstep(6, 7.5, 7))) = round(255 * 7/27) = 66.
    let mut data = vec![0u8; 4 * 16];
    data[3] = 255; // pixel (0, 0) opaque
    let img = RgbaImage::from_raw(16, 1, data).unwrap();
    let out = clean_sticker_border(&img);
    assert_eq!(pixel(&out, 6, 0)[3], 255);
    assert_eq!(pixel(&out, 7, 0)[3], 66);
    assert_eq!(pixel(&out, 8, 0)[3], 0);
}

#[test]
fn faint_outside_pixel_keeps_its_alpha() {
    // A pixel below the noise floor but not fully transparent is not
    // part of the body, yet far from it the blend leaves it as it was.
    let mut img = canvas_with_square(24, 10, 14);
    let i = 0usize; // corner (0, 0), squared distance 200 from the body
    img.data[4 * i] = 200;
    img.data[4 * i + 3] = 5;
    let out = clean_sticker_border(&img);
    assert_eq!(pixel(&out, 0, 0), [200, 0, 0, 5]);
}

#[test]
fn empty_image_stays_empty() {
    let img = RgbaImage::from_raw(0, 0, vec![]).unwrap();
    let out = clean_sticker_border(&img);
    assert_eq!(out.width, 0);
    assert_eq!(out.height, 0);
    assert!(out.data.is_empty());
}
