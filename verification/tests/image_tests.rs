//! Pixel logic: tone curve, orientation fix, resize, selective-erase
//! row scanning, the answer-page header test, and the PNG boundary.

use reader_buddy::codecs::{base64_encode, decode_png_luma, encode_png_luma};
use reader_buddy::image_ops::{
    apply_curves, bitmap_to_luma, erase_rows, header_has_ink, high_bytes, resize_nearest,
    rotate270_flip_horizontal,
};
use reader_buddy::BoundingBox;

#[test]
fn tone_curve_matches_the_three_bands() {
    assert_eq!(apply_curves(0), 0);
    assert_eq!(apply_curves(11), 0);
    assert_eq!(apply_curves(12), 35);
    assert_eq!(apply_curves(13), 101);
    assert_eq!(apply_curves(14), 168);
    assert_eq!(apply_curves(15), 235);
    assert_eq!(apply_curves(16), 255);
    assert_eq!(apply_curves(255), 255);
}

#[test]
fn high_bytes_keeps_every_second_byte() {
    assert_eq!(high_bytes(&vec![1, 2, 3, 4, 5, 6]), vec![2, 4, 6]);
    assert_eq!(high_bytes(&vec![1]), Vec::<u8>::new());
}

#[test]
fn orientation_fix_of_a_tiny_image() {
    // A 2 by 1 image [a, b] becomes 1 wide, 2 tall: first the pixel
    // from the right column, then from the left.
    assert_eq!(rotate270_flip_horizontal(&vec![10, 20], 2, 1), vec![20, 10]);
    // 2 by 2: [a b / c d] -> rotate 270 and mirror.
    let r = rotate270_flip_horizontal(&vec![1, 2, 3, 4], 2, 2);
    assert_eq!(r, vec![4, 2, 3, 1]);
}

#[test]
fn nearest_resize_doubles_a_tiny_image() {
    let out = resize_nearest(&vec![1, 2, 3, 4], 2, 2, 4, 4, 1);
    assert_eq!(
        out,
        vec![1, 1, 2, 2, 1, 1, 2, 2, 3, 3, 4, 4, 3, 3, 4, 4]
    );
}

fn stripe_image(w: usize, h: usize, dark_rows: &[usize], dark_x: usize) -> Vec<u8> {
    let mut img = vec![255u8; w * h];
    for &y in dark_rows {
        img[y * w + dark_x] = 10;
    }
    img
}

#[test]
fn only_rows_near_the_ink_stripe_are_selected() {
    // One horizontal stripe at rows 10..=12 inside the box: with the
    // two-row margin, exactly rows 8..=14 are selected.
    let img = stripe_image(20, 30, &[10, 11, 12], 5);
    let region = BoundingBox { x: 2, y: 5, width: 10, height: 20 };
    let rows = erase_rows(&img, 20, 30, &region);
    assert_eq!(rows, vec![8, 9, 10, 11, 12, 13, 14]);
}

#[test]
fn rows_outside_the_box_are_never_selected() {
    // Ink above the box does not select anything inside it.
    let img = stripe_image(20, 30, &[2], 5);
    let region = BoundingBox { x: 2, y: 5, width: 10, height: 20 };
    assert_eq!(erase_rows(&img, 20, 30, &region), Vec::<i32>::new());
    // Ink in a column left of the box does not count either.
    let img2 = stripe_image(20, 30, &[10], 1);
    assert_eq!(erase_rows(&img2, 20, 30, &region), Vec::<i32>::new());
}

#[test]
fn margin_is_cut_at_the_box_edges() {
    let img = stripe_image(20, 30, &[5], 5);
    let region = BoundingBox { x: 2, y: 5, width: 10, height: 20 };
    assert_eq!(erase_rows(&img, 20, 30, &region), vec![5, 6, 7]);
}

#[test]
fn header_ink_threshold_decides() {
    let w = 10usize;
    let h = 200usize;
    let mut img = vec![255u8; w * h];
    for i in 0..49 {
        img[i] = 0;
    }
    assert!(!header_has_ink(&img, w, h));
    img[49] = 0;
    assert!(header_has_ink(&img, w, h));
}

#[test]
fn ink_below_the_header_does_not_count() {
    let w = 10usize;
    let h = 200usize;
    let mut img = vec![255u8; w * h];
    for i in 0..60 {
        img[150 * w + i / 10 * w + i % 10] = 0;
    }
    assert!(!header_has_ink(&img, w, h));
}

#[test]
fn bitmap_renders_black_on_white() {
    let bitmap = vec![vec![true, false], vec![false, true]];
    assert_eq!(bitmap_to_luma(&bitmap), vec![0, 255, 255, 0]);
}

#[test]
fn png_round_trip_preserves_pixels() {
    let pixels: Vec<u8> = vec![0, 64, 128, 255, 10, 20, 30, 40];
    let png = encode_png_luma(&pixels, 4, 2).unwrap();
    let (back, w, h) = decode_png_luma(&png).unwrap();
    assert_eq!((w, h), (4, 2));
    assert_eq!(back, pixels);
}

#[test]
fn base64_uses_the_standard_alphabet_with_padding() {
    assert_eq!(base64_encode(&vec![77, 97, 110]), "TWFu");
    assert_eq!(base64_encode(&vec![77, 97]), "TWE=");
    assert_eq!(base64_encode(&vec![77]), "TQ==");
    assert_eq!(base64_encode(&Vec::new()), "");
}

#[test]
fn orientation_fix_matches_the_image_crate() {
    // The verified orientation fix must agree with rotating 270
    // degrees and mirroring horizontally through the image crate.
    let w = 5u32;
    let h = 3u32;
    let data: Vec<u8> = (0..(w * h) as u8).collect();
    let ours = rotate270_flip_horizontal(&data, w as usize, h as usize);
    let img = image::GrayImage::from_raw(w, h, data).unwrap();
    let rotated = image::imageops::rotate270(&img);
    let flipped = image::imageops::flip_horizontal(&rotated);
    assert_eq!((flipped.width(), flipped.height()), (h, w));
    assert_eq!(ours, flipped.into_raw());
}

