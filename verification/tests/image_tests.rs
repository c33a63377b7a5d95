use hyperion::color::Color;
use hyperion::image::{Image, ImageViewExt, RawImage, RawImageError};

fn sample(width: u32, height: u32) -> RawImage {
    let data: Vec<u8> = (0..width * height * 3).map(|i| i as u8).collect();
    RawImage::from_raw_parts(data, width, height).unwrap()
}

#[test]
fn from_raw_parts_accepts_matching_data() {
    let img = RawImage::from_raw_parts(vec![1, 2, 3, 4, 5, 6], 2, 1).unwrap();
    assert_eq!(img.width(), 2);
    assert_eq!(img.height(), 1);
    assert_eq!(img.get_dimensions(), (2, 1));
}

#[test]
fn from_raw_parts_rejects_wrong_length() {
    let err = RawImage::from_raw_parts(vec![0; 5], 2, 1).unwrap_err();
    match err {
        RawImageError::InvalidData { data, width, height, channels, expected } => {
            assert_eq!((data, width, height, channels, expected), (5, 2, 1, 3, 6));
        }
        other => panic!("unexpected error {:?}", other),
    }
}

#[test]
fn from_raw_parts_rejects_zero_width() {
    let err = RawImage::from_raw_parts(vec![], 0, 4).unwrap_err();
    assert!(matches!(err, RawImageError::ZeroWidth));
}

#[test]
fn from_raw_parts_rejects_zero_height() {
    let err = RawImage::from_raw_parts(vec![], 4, 0).unwrap_err();
    assert!(matches!(err, RawImageError::ZeroHeight));
}

#[test]
fn from_raw_parts_length_checked_before_dimensions() {
    let err = RawImage::from_raw_parts(vec![1, 2, 3], 0, 0).unwrap_err();
    assert!(matches!(err, RawImageError::InvalidData { expected: 0, .. }));
}

#[test]
fn color_at_reads_row_major_pixels() {
    let img = sample(3, 2);
    assert_eq!(img.color_at(0, 0), Some(Color::new(0, 1, 2)));
    assert_eq!(img.color_at(2, 0), Some(Color::new(6, 7, 8)));
    assert_eq!(img.color_at(1, 1), Some(Color::new(12, 13, 14)));
    assert_eq!(img.color_at(2, 1), Some(Color::new(15, 16, 17)));
}

#[test]
fn color_at_outside_is_none() {
    let img = sample(3, 2);
    assert_eq!(img.color_at(3, 0), None);
    assert_eq!(img.color_at(0, 2), None);
    assert_eq!(img.color_at(u32::MAX, u32::MAX), None);
}

#[test]
fn color_at_unchecked_matches_color_at() {
    let img = sample(4, 3);
    for y in 0..3 {
        for x in 0..4 {
            assert_eq!(Some(img.color_at_unchecked(x, y)), img.color_at(x, y));
        }
    }
}

#[test]
fn raw_image_to_raw_image_is_a_copy() {
    let img = sample(2, 2);
    let copy = img.to_raw_image();
    assert_eq!(copy.get_dimensions(), (2, 2));
    assert_eq!(copy.debug_string(), img.debug_string());
}

#[test]
fn view_dimensions_and_offsets() {
    let img = sample(4, 3);
    let view = img.wrap(1..3, 1..3);
    assert_eq!(view.width(), 2);
    assert_eq!(view.height(), 2);
    assert_eq!(view.color_at(0, 0), img.color_at(1, 1));
    assert_eq!(view.color_at(1, 1), img.color_at(2, 2));
}

#[test]
fn view_color_at_outside_window_is_none() {
    let img = sample(4, 3);
    let view = img.wrap(1..2, 0..1);
    assert_eq!(view.color_at(0, 0), img.color_at(1, 0));
    // Outside the window nothing is shown, even where the source has colors
    assert_eq!(view.color_at(2, 2), None);
    assert_eq!(view.color_at(1, 0), None);
    assert_eq!(view.color_at(0, 1), None);
    assert_eq!(view.color_at(u32::MAX, u32::MAX), None);
}

#[test]
fn raw_image_clone_keeps_bytes() {
    let img = sample(3, 2);
    let copy = img.clone();
    assert_eq!(copy.debug_string(), img.debug_string());
}

#[test]
fn view_to_raw_image_copies_window() {
    let img = sample(4, 3);
    let raw = img.wrap(1..3, 1..3).to_raw_image();
    assert_eq!(raw.get_dimensions(), (2, 2));
    assert_eq!(
        raw.debug_string(),
        "RawImage { width: 2, height: 2, channels: 3, data: [15, 16, 17, 18, 19, 20, 27, 28, 29, 30, 31, 32] }"
    );
}

#[test]
fn full_view_exports_same_image() {
    let img = sample(5, 4);
    let raw = img.wrap(0..5, 0..4).to_raw_image();
    assert_eq!(raw.debug_string(), img.debug_string());
    for y in 0..4 {
        for x in 0..5 {
            assert_eq!(raw.color_at(x, y), img.color_at(x, y));
        }
    }
}

#[test]
fn empty_view_exports_empty_image() {
    let img = sample(2, 2);
    let raw = img.wrap(1..1, 0..2).to_raw_image();
    assert_eq!(raw.get_dimensions(), (0, 2));
    assert_eq!(raw.color_at(0, 0), None);
}

#[test]
fn nested_views_add_offsets() {
    let img = sample(5, 5);
    let outer = img.wrap(1..5, 2..5);
    let inner = outer.wrap(1..3, 1..2);
    assert_eq!(inner.color_at(0, 0), img.color_at(2, 3));
    assert_eq!(inner.color_at(1, 0), img.color_at(3, 3));
}

#[test]
fn debug_string_small_image_lists_bytes() {
    let img = RawImage::from_raw_parts(vec![1, 2, 3, 40, 50, 255], 2, 1).unwrap();
    assert_eq!(
        img.debug_string(),
        "RawImage { width: 2, height: 1, channels: 3, data: [1, 2, 3, 40, 50, 255] }"
    );
}

#[test]
fn debug_string_large_image_counts_bytes() {
    let img = sample(4, 3);
    assert_eq!(
        img.debug_string(),
        "RawImage { width: 4, height: 3, channels: 3, data: \"[36 bytes]\" }"
    );
}

#[test]
fn debug_string_matches_debug_struct_layout() {
    // 32 bytes or fewer are listed: 10 pixels are 30 bytes
    let img = sample(10, 1);
    let text = img.debug_string();
    assert!(text.starts_with("RawImage { width: 10, height: 1, channels: 3, data: [0, 1, 2,"));
    assert!(text.ends_with("27, 28, 29] }"));
}

#[test]
fn view_with_reversed_vertical_range_has_width_and_no_colors() {
    let img = sample(4, 3);
    let view = img.wrap(1..3, 2..1);
    assert_eq!(view.width(), 2);
    assert_eq!(view.color_at(0, 0), None);
    assert_eq!(view.color_at(1, 0), None);
}
