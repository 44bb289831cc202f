use std::io::Cursor;

use image::{DynamicImage, GenericImageView};
use leaf::media::{MediaError, OrientationFix};
use leaf::thumbnail::{apply_orientation, needs_shrink, placeholder_png, source_orientation, thumbnail_webp};

fn png_bytes(w: u32, h: u32) -> Vec<u8> {
    let img = image::RgbaImage::from_fn(w, h, |x, _| {
        image::Rgba([u8::try_from(x % 256).unwrap(), 80, 120, 255])
    });
    let mut out = Vec::new();
    DynamicImage::ImageRgba8(img)
        .write_to(&mut Cursor::new(&mut out), image::ImageFormat::Png)
        .unwrap();
    out
}

/// A minimal little-endian TIFF whose only tag is Orientation = `o`.
fn tiff_with_orientation(o: u16) -> Vec<u8> {
    let mut b = vec![b'I', b'I', 42, 0, 8, 0, 0, 0];
    b.extend_from_slice(&1u16.to_le_bytes());
    b.extend_from_slice(&0x0112u16.to_le_bytes());
    b.extend_from_slice(&3u16.to_le_bytes());
    b.extend_from_slice(&1u32.to_le_bytes());
    b.extend_from_slice(&o.to_le_bytes());
    b.extend_from_slice(&[0, 0]);
    b.extend_from_slice(&0u32.to_le_bytes());
    b
}

#[test]
fn orientation_transforms_move_pixels_correctly() {
    // 2x1 image: red pixel left, blue pixel right.
    let mut img = image::RgbaImage::new(2, 1);
    img.put_pixel(0, 0, image::Rgba([255, 0, 0, 255]));
    img.put_pixel(1, 0, image::Rgba([0, 0, 255, 255]));
    let img = DynamicImage::ImageRgba8(img);

    let red_at =
        |img: &DynamicImage, x: u32, y: u32| img.get_pixel(x, y).0 == [255, 0, 0, 255];

    // 1 = unchanged; red stays top-left.
    assert!(red_at(&apply_orientation(img.clone(), 1), 0, 0));
    // 2 = flip horizontal; red moves right.
    assert!(red_at(&apply_orientation(img.clone(), 2), 1, 0));
    // 3 = rotate 180; red moves right.
    assert!(red_at(&apply_orientation(img.clone(), 3), 1, 0));
    // 6 = rotate 90 CW: 2x1 → 1x2, red goes top.
    let r6 = apply_orientation(img.clone(), 6);
    assert_eq!((r6.width(), r6.height()), (1, 2));
    assert!(red_at(&r6, 0, 0));
    // 8 = rotate 270 CW: red goes bottom.
    let r8 = apply_orientation(img.clone(), 8);
    assert!(red_at(&r8, 0, 1));
    // Unknown orientation = unchanged.
    assert!(red_at(&apply_orientation(img, 99), 0, 0));
}

#[test]
fn mirrored_orientations_rotate_then_flip() {
    // 2x1: red left. 5 = rotate 90 then mirror: 1x2, red stays top.
    let mut img = image::RgbaImage::new(2, 1);
    img.put_pixel(0, 0, image::Rgba([255, 0, 0, 255]));
    let img = DynamicImage::ImageRgba8(img);
    let r5 = apply_orientation(img.clone(), 5);
    assert_eq!((r5.width(), r5.height()), (1, 2));
    assert_eq!(r5.get_pixel(0, 0).0, [255, 0, 0, 255]);
    // 4 = flip vertical on a 1-row image: unchanged.
    let r4 = apply_orientation(img, 4);
    assert_eq!(r4.get_pixel(0, 0).0, [255, 0, 0, 255]);
}

#[test]
fn exif_orientation_tag_picks_the_fix() {
    assert_eq!(source_orientation(&tiff_with_orientation(6)), OrientationFix::Rotate90);
    assert_eq!(source_orientation(&tiff_with_orientation(3)), OrientationFix::Rotate180);
    // No EXIF at all: kept as stored.
    assert_eq!(source_orientation(&png_bytes(4, 4)), OrientationFix::Keep);
    assert_eq!(source_orientation(b"not an image"), OrientationFix::Keep);
}

#[test]
fn thumbnail_caps_the_long_edge_and_keeps_aspect() {
    let thumb = thumbnail_webp(&png_bytes(1024, 512)).unwrap();
    let decoded = image::load_from_memory(&thumb).unwrap();
    assert_eq!((decoded.width(), decoded.height()), (256, 128));
    assert_eq!(image::guess_format(&thumb).unwrap(), image::ImageFormat::WebP);
}

#[test]
fn small_images_are_not_enlarged() {
    let thumb = thumbnail_webp(&png_bytes(64, 32)).unwrap();
    let decoded = image::load_from_memory(&thumb).unwrap();
    assert_eq!((decoded.width(), decoded.height()), (64, 32));
    assert!(!needs_shrink(256, 256));
    assert!(needs_shrink(257, 10));
    assert!(needs_shrink(10, 257));
}

#[test]
fn undecodable_bytes_are_a_transform_error() {
    assert!(matches!(thumbnail_webp(b"not an image"), Err(MediaError::Transform(_))));
}

#[test]
fn placeholder_is_a_256_by_144_png() {
    let png = placeholder_png();
    assert_eq!(image::guess_format(&png).unwrap(), image::ImageFormat::Png);
    let decoded = image::load_from_memory(&png).unwrap();
    assert_eq!((decoded.width(), decoded.height()), (256, 144));
    assert_eq!(decoded.get_pixel(10, 10).0, [29, 43, 31, 255]);
}

#[test]
fn thumbnail_bytes_are_a_simple_lossless_webp_container() {
    let thumb = thumbnail_webp(&png_bytes(40, 20)).unwrap();
    assert!(thumb.len() >= 16);
    assert_eq!(&thumb[0..4], b"RIFF");
    assert_eq!(&thumb[8..12], b"WEBP");
    assert_eq!(&thumb[12..16], b"VP8L");
}

#[test]
fn undecodable_bytes_carry_the_decoder_message() {
    match thumbnail_webp(b"not an image") {
        Err(MediaError::Transform(m)) => assert!(!m.is_empty()),
        _ => panic!("expected a transform error"),
    }
}

#[test]
fn out_of_range_orientation_keeps_the_image() {
    let mut img = image::RgbaImage::new(3, 2);
    img.put_pixel(2, 1, image::Rgba([1, 2, 3, 4]));
    let img = DynamicImage::ImageRgba8(img);
    for o in [0u32, 1, 9, 99] {
        let kept = apply_orientation(img.clone(), o);
        assert_eq!(kept, img);
    }
}
