use avif_converter::background::{create_background, tile_pattern};
use avif_converter::orientation::apply_orientation;
use avif_converter::pipeline::decode_oriented;
use image::{GenericImageView, ImageOutputFormat, Rgba, RgbaImage};
use std::io::Cursor;

fn png_bytes(img: &RgbaImage) -> Vec<u8> {
    let mut cursor = Cursor::new(Vec::new());
    img.write_to(&mut cursor, ImageOutputFormat::Png).unwrap();
    cursor.into_inner()
}

fn jpeg_bytes(img: &RgbaImage) -> Vec<u8> {
    let rgb = image::DynamicImage::ImageRgba8(img.clone()).to_rgb8();
    let mut cursor = Cursor::new(Vec::new());
    rgb.write_to(&mut cursor, ImageOutputFormat::Jpeg(90)).unwrap();
    cursor.into_inner()
}

/// Puts an EXIF segment with the given orientation right after the JPEG
/// start marker.
fn with_orientation(jpeg: &[u8], orientation: u8) -> Vec<u8> {
    let tiff: Vec<u8> = vec![
        b'M', b'M', 0, 42, 0, 0, 0, 8, // header, first directory at 8
        0, 1, // one entry
        0x01, 0x12, 0, 3, 0, 0, 0, 1, 0, orientation, 0, 0, // Orientation, SHORT, 1 value
        0, 0, 0, 0, // no next directory
    ];
    let mut app1 = b"Exif\0\0".to_vec();
    app1.extend_from_slice(&tiff);
    let len = (app1.len() + 2) as u16;
    let mut out = jpeg[..2].to_vec();
    out.extend_from_slice(&[0xFF, 0xE1, (len >> 8) as u8, len as u8]);
    out.extend_from_slice(&app1);
    out.extend_from_slice(&jpeg[2..]);
    out
}

/// A 2x3 image whose six pixels differ widely.
fn numbered_image() -> RgbaImage {
    let mut img = RgbaImage::new(2, 3);
    for y in 0..3u32 {
        for x in 0..2u32 {
            img.put_pixel(x, y, Rgba([(40 * (y * 2 + x)) as u8, 0, 0, 255]));
        }
    }
    img
}

fn red(img: &image::DynamicImage, x: u32, y: u32) -> u8 {
    img.get_pixel(x, y)[0]
}

#[test]
fn orientations_turn_and_flip() {
    let src = numbered_image();
    let bytes = png_bytes(&src);
    let v = |x: u32, y: u32| src.get_pixel(x, y)[0];
    for o in 0..10u32 {
        let p = decode_oriented(&bytes).ok().unwrap();
        let r = apply_orientation(p, o);
        let img = r.into_image();
        match o {
            2 => {
                assert_eq!(img.dimensions(), (2, 3));
                assert_eq!(red(&img, 0, 0), v(1, 0));
            }
            3 => {
                assert_eq!(img.dimensions(), (2, 3));
                assert_eq!(red(&img, 0, 0), v(1, 2));
            }
            4 => {
                assert_eq!(img.dimensions(), (2, 3));
                assert_eq!(red(&img, 0, 0), v(0, 2));
            }
            5 => {
                assert_eq!(img.dimensions(), (3, 2));
                assert_eq!(red(&img, 0, 0), v(0, 0));
                assert_eq!(red(&img, 2, 1), v(1, 2));
            }
            6 => {
                assert_eq!(img.dimensions(), (3, 2));
                assert_eq!(red(&img, 0, 0), v(0, 2));
                assert_eq!(red(&img, 2, 0), v(0, 0));
            }
            7 => {
                assert_eq!(img.dimensions(), (3, 2));
                assert_eq!(red(&img, 0, 0), v(1, 2));
            }
            8 => {
                assert_eq!(img.dimensions(), (3, 2));
                assert_eq!(red(&img, 0, 0), v(1, 0));
            }
            _ => assert_eq!(img.to_rgba8(), src),
        }
    }
}

#[test]
fn exif_orientation_is_applied_on_decode() {
    let mut img = RgbaImage::new(16, 8);
    for p in img.pixels_mut() {
        *p = Rgba([200, 200, 200, 255]);
    }
    let jpeg = jpeg_bytes(&img);
    let plain = decode_oriented(&jpeg).ok().unwrap();
    assert_eq!((plain.width(), plain.height()), (16, 8));
    let turned = decode_oriented(&with_orientation(&jpeg, 6)).ok().unwrap();
    assert_eq!((turned.width(), turned.height()), (8, 16));
    let mirrored = decode_oriented(&with_orientation(&jpeg, 2)).ok().unwrap();
    assert_eq!((mirrored.width(), mirrored.height()), (16, 8));
}

#[test]
fn tiling_repeats_the_pattern() {
    // 2x1 pattern: pixel A then pixel B
    let px = vec![1, 2, 3, 4, 5, 6, 7, 8];
    let out = tile_pattern(&px, 2, 1, 3, 2);
    assert_eq!(
        out,
        vec![1, 2, 3, 4, 5, 6, 7, 8, 1, 2, 3, 4, 1, 2, 3, 4, 5, 6, 7, 8, 1, 2, 3, 4]
    );
    assert!(tile_pattern(&[], 0, 0, 0, 5).is_empty());
}

#[test]
fn background_is_a_colour_or_a_pattern() {
    let solid = create_background(3, 2, Some("gray"), None).into_image();
    assert_eq!(solid.dimensions(), (3, 2));
    assert_eq!(solid.get_pixel(2, 1), Rgba([128, 128, 128, 255]));

    let clear = create_background(2, 2, None, None).into_image();
    assert_eq!(clear.get_pixel(0, 0), Rgba([0, 0, 0, 0]));

    let mut pattern = RgbaImage::new(2, 1);
    pattern.put_pixel(0, 0, Rgba([9, 9, 9, 255]));
    pattern.put_pixel(1, 0, Rgba([7, 7, 7, 128]));
    let bytes = png_bytes(&pattern);
    let tiled = create_background(5, 2, Some("white"), Some(&bytes)).into_image();
    assert_eq!(tiled.dimensions(), (5, 2));
    assert_eq!(tiled.get_pixel(0, 1), Rgba([9, 9, 9, 255]));
    assert_eq!(tiled.get_pixel(3, 0), Rgba([7, 7, 7, 128]));
    assert_eq!(tiled.get_pixel(4, 1), Rgba([9, 9, 9, 255]));

    // pattern bytes that do not decode fall back to the colour
    let fallback = create_background(2, 2, Some("black"), Some(b"junk")).into_image();
    assert_eq!(fallback.get_pixel(1, 1), Rgba([0, 0, 0, 255]));
}

#[test]
fn undecodable_pattern_is_as_no_pattern() {
    for bg in [None, Some("white"), Some("#336699"), Some("nonsense")] {
        let with_junk = create_background(3, 2, bg, Some(b"not an image")).into_image();
        let without = create_background(3, 2, bg, None).into_image();
        assert_eq!(with_junk.to_rgba8(), without.to_rgba8());
        let empty = create_background(3, 2, bg, Some(&[])).into_image();
        assert_eq!(empty.to_rgba8(), without.to_rgba8());
    }
}
