use avif_converter::fit::ResizeFit;
use avif_converter::picture::Picture;
use avif_converter::pipeline::{
    decode_oriented, finish_scaled, process_image_bytes, resize_picture, ProcessError, Progress,
    ResizeOptions,
};
use image::{DynamicImage, GenericImageView, ImageOutputFormat, Rgba, RgbaImage};
use ravif::{Encoder, Img, RGBA8};
use std::io::Cursor;

fn png_bytes(img: &RgbaImage) -> Vec<u8> {
    let mut cursor = Cursor::new(Vec::new());
    img.write_to(&mut cursor, ImageOutputFormat::Png).unwrap();
    cursor.into_inner()
}

fn red_square(size: u32) -> Vec<u8> {
    let mut img = RgbaImage::new(size, size);
    for pixel in img.pixels_mut() {
        *pixel = Rgba([255, 0, 0, 255]);
    }
    png_bytes(&img)
}

fn done(r: Result<Progress, ProcessError>) -> Picture {
    match r {
        Ok(Progress::Done(p)) => p,
        _ => panic!("expected a finished picture"),
    }
}

fn encode(img: &DynamicImage) -> Vec<u8> {
    let rgba = img.to_rgba8();
    let pixels: Vec<RGBA8> = rgba.pixels().map(|p| RGBA8::new(p[0], p[1], p[2], p[3])).collect();
    Encoder::new()
        .with_quality(80.0)
        .with_speed(10)
        .with_alpha_quality(80.0)
        .encode_rgba(Img::new(pixels.as_slice(), rgba.width() as usize, rgba.height() as usize))
        .unwrap()
        .avif_file
}

/// Bytes of a 2x3 image whose six pixels all differ.
fn numbered_image() -> RgbaImage {
    let mut img = RgbaImage::new(2, 3);
    for y in 0..3 {
        for x in 0..2 {
            img.put_pixel(x, y, Rgba([(10 * (y * 2 + x)) as u8, 1, 2, 255]));
        }
    }
    img
}

#[test]
fn test_resize_padding_options() {
    let bytes = red_square(100);
    let options = ResizeOptions {
        width: 200,
        height: 200,
        fit: Some(ResizeFit::Contain),
        bg: Some("white".to_string()),
        ..Default::default()
    };
    let result = done(process_image_bytes(&bytes, &options)).into_image();
    // the square scales up to fill the square box, so no padding shows
    assert_eq!(result.dimensions(), (200, 200));
    assert_eq!(result.get_pixel(0, 0), Rgba([255, 0, 0, 255]));
    assert_eq!(result.get_pixel(199, 199), Rgba([255, 0, 0, 255]));
    assert!(!encode(&result).is_empty());
}

#[test]
fn test_resize_cover_options() {
    let bytes = red_square(100);
    let options = ResizeOptions {
        width: 50,
        height: 50,
        fit: Some(ResizeFit::Cover),
        ..Default::default()
    };
    let result = done(process_image_bytes(&bytes, &options)).into_image();
    assert_eq!(result.dimensions(), (50, 50));
    assert!(!encode(&result).is_empty());
}

#[test]
fn contain_centres_the_image_on_a_wide_canvas() {
    let bytes = red_square(100);
    let options = ResizeOptions {
        width: 200,
        height: 100,
        fit: Some(ResizeFit::Contain),
        bg: Some("black".to_string()),
        ..Default::default()
    };
    let result = done(process_image_bytes(&bytes, &options)).into_image();
    assert_eq!(result.dimensions(), (200, 100));
    assert_eq!(result.get_pixel(49, 50), Rgba([0, 0, 0, 255]));
    assert_eq!(result.get_pixel(50, 50), Rgba([255, 0, 0, 255]));
    assert_eq!(result.get_pixel(149, 50), Rgba([255, 0, 0, 255]));
    assert_eq!(result.get_pixel(150, 50), Rgba([0, 0, 0, 255]));
}

#[test]
fn contain_pads_transparent_without_bg() {
    let bytes = red_square(10);
    let options = ResizeOptions {
        width: 10,
        height: 20,
        fit: Some(ResizeFit::Contain),
        ..Default::default()
    };
    let result = done(process_image_bytes(&bytes, &options)).into_image();
    assert_eq!(result.dimensions(), (10, 20));
    assert_eq!(result.get_pixel(0, 0), Rgba([0, 0, 0, 0]));
    assert_eq!(result.get_pixel(5, 10), Rgba([255, 0, 0, 255]));
}

#[test]
fn contain_tiles_the_pattern() {
    let bytes = red_square(4);
    let mut pattern = RgbaImage::new(2, 2);
    pattern.put_pixel(0, 0, Rgba([1, 2, 3, 255]));
    pattern.put_pixel(1, 0, Rgba([4, 5, 6, 255]));
    pattern.put_pixel(0, 1, Rgba([7, 8, 9, 255]));
    pattern.put_pixel(1, 1, Rgba([10, 11, 12, 255]));
    let options = ResizeOptions {
        width: 10,
        height: 4,
        fit: Some(ResizeFit::Contain),
        bg: Some("white".to_string()),
        pattern_data: Some(png_bytes(&pattern)),
        crop: None,
    };
    let result = done(process_image_bytes(&bytes, &options)).into_image();
    assert_eq!(result.dimensions(), (10, 4));
    assert_eq!(result.get_pixel(0, 0), Rgba([1, 2, 3, 255]));
    assert_eq!(result.get_pixel(1, 0), Rgba([4, 5, 6, 255]));
    assert_eq!(result.get_pixel(2, 1), Rgba([7, 8, 9, 255]));
    assert_eq!(result.get_pixel(9, 3), Rgba([10, 11, 12, 255]));
    assert_eq!(result.get_pixel(5, 2), Rgba([255, 0, 0, 255]));
}

#[test]
fn fill_stretches_to_the_box() {
    let bytes = red_square(100);
    let options = ResizeOptions { width: 30, height: 10, fit: Some(ResizeFit::Fill), ..Default::default() };
    let result = done(process_image_bytes(&bytes, &options));
    assert_eq!((result.width(), result.height()), (30, 10));
}

#[test]
fn fill_keeps_the_other_side() {
    let bytes = red_square(100);
    let options = ResizeOptions { width: 30, fit: Some(ResizeFit::Fill), ..Default::default() };
    let result = done(process_image_bytes(&bytes, &options));
    assert_eq!((result.width(), result.height()), (30, 100));
}

#[test]
fn default_fit_with_both_sides_fits_inside() {
    let mut img = RgbaImage::new(100, 50);
    for p in img.pixels_mut() {
        *p = Rgba([0, 255, 0, 255]);
    }
    let options = ResizeOptions { width: 50, height: 50, ..Default::default() };
    let result = done(process_image_bytes(&png_bytes(&img), &options));
    assert_eq!((result.width(), result.height()), (50, 25));
}

#[test]
fn default_fit_with_one_side_waits_for_the_scale() {
    let bytes = red_square(100);
    let options = ResizeOptions { width: 40, ..Default::default() };
    match process_image_bytes(&bytes, &options) {
        Ok(Progress::ScaleWidthTo(p, w)) => {
            assert_eq!(w, 40);
            assert_eq!((p.width(), p.height()), (100, 100));
            let r = finish_scaled(p, 40, 40);
            assert_eq!((r.width(), r.height()), (40, 40));
        }
        _ => panic!("expected a pending scale"),
    }
    let options = ResizeOptions { height: 30, ..Default::default() };
    match process_image_bytes(&bytes, &options) {
        Ok(Progress::ScaleHeightTo(_, h)) => assert_eq!(h, 30),
        _ => panic!("expected a pending scale"),
    }
}

#[test]
fn no_size_keeps_the_image() {
    let bytes = png_bytes(&numbered_image());
    let options = ResizeOptions { fit: Some(ResizeFit::Cover), ..Default::default() };
    let result = done(process_image_bytes(&bytes, &options)).into_image();
    assert_eq!(result.to_rgba8(), numbered_image());
}

#[test]
fn default_options_are_empty() {
    let options = ResizeOptions::default();
    assert_eq!(options.width, 0);
    assert_eq!(options.height, 0);
    assert!(options.fit.is_none());
    assert!(options.bg.is_none());
    assert!(options.pattern_data.is_none());
}

#[test]
fn undecodable_bytes_report_the_decoder_error() {
    match process_image_bytes(b"not an image", &ResizeOptions::default()) {
        Err(ProcessError::Decode(text)) => assert!(!text.is_empty()),
        _ => panic!("expected a decode error"),
    }
    assert!(decode_oriented(&[]).is_err());
}

#[test]
fn unreadable_colour_pads_transparent() {
    let bytes = red_square(4);
    let options = ResizeOptions {
        width: 8,
        height: 8,
        fit: Some(ResizeFit::Contain),
        bg: Some("a\u{e9}123".to_string()),
        ..Default::default()
    };
    let padded = done(process_image_bytes(&bytes, &options)).into_image();
    assert_eq!(padded.dimensions(), (8, 8));
    // the image is fitted to 8 x 8 and covers the canvas
    assert_eq!(padded.get_pixel(0, 0), Rgba([255, 0, 0, 255]));
    let options = ResizeOptions {
        width: 8,
        height: 4,
        fit: Some(ResizeFit::Contain),
        bg: Some("a\u{e9}123".to_string()),
        ..Default::default()
    };
    let padded = done(process_image_bytes(&bytes, &options)).into_image();
    assert_eq!(padded.dimensions(), (8, 4));
    assert_eq!(padded.get_pixel(0, 0), Rgba([0, 0, 0, 0]));
    assert_eq!(padded.get_pixel(4, 2), Rgba([255, 0, 0, 255]));
}

#[test]
fn resize_picture_applies_cover() {
    let picture = decode_oriented(&red_square(20)).ok().unwrap();
    let options = ResizeOptions { width: 10, height: 5, fit: Some(ResizeFit::Cover), ..Default::default() };
    match resize_picture(picture, &options) {
        Progress::Done(p) => assert_eq!((p.width(), p.height()), (10, 5)),
        _ => panic!("expected a finished picture"),
    }
}

/// A farbfeld image of 0 x 0 pixels.
fn empty_farbfeld() -> Vec<u8> {
    let mut b = b"farbfeld".to_vec();
    b.extend_from_slice(&[0, 0, 0, 0, 0, 0, 0, 0]);
    b
}

#[test]
fn images_without_pixels() {
    // `cover` scales an image without pixels to one pixel, and cannot crop
    // a box wider and taller than that pixel from it
    let options = ResizeOptions { width: 4, height: 4, fit: Some(ResizeFit::Cover), ..Default::default() };
    assert!(matches!(process_image_bytes(&empty_farbfeld(), &options), Err(ProcessError::EmptyImage)));
    let options = ResizeOptions { width: 1, height: 5, fit: Some(ResizeFit::Cover), ..Default::default() };
    let covered = done(process_image_bytes(&empty_farbfeld(), &options));
    assert_eq!((covered.width(), covered.height()), (1, 1));
    // `contain` pads the single resampled pixel to the box
    let options = ResizeOptions { width: 4, height: 4, fit: Some(ResizeFit::Contain), ..Default::default() };
    let padded = done(process_image_bytes(&empty_farbfeld(), &options)).into_image();
    assert_eq!(padded.dimensions(), (4, 4));
    assert!(padded.to_rgba8().pixels().all(|p| *p == Rgba([0, 0, 0, 0])));
    // ... unless the box has no columns to centre it in
    let options = ResizeOptions { height: 4, fit: Some(ResizeFit::Contain), ..Default::default() };
    assert!(matches!(process_image_bytes(&empty_farbfeld(), &options), Err(ProcessError::EmptyImage)));
    // `fill` stretches it to the box, the default fit resizes it to one pixel
    let options = ResizeOptions { width: 4, height: 3, fit: Some(ResizeFit::Fill), ..Default::default() };
    let filled = done(process_image_bytes(&empty_farbfeld(), &options));
    assert_eq!((filled.width(), filled.height()), (4, 3));
    let options = ResizeOptions { width: 4, height: 3, ..Default::default() };
    let fitted = done(process_image_bytes(&empty_farbfeld(), &options));
    assert_eq!((fitted.width(), fitted.height()), (1, 1));
    // without a size the empty image passes through
    match process_image_bytes(&empty_farbfeld(), &ResizeOptions::default()) {
        Ok(Progress::Done(p)) => assert_eq!((p.width(), p.height()), (0, 0)),
        _ => panic!("expected the empty picture"),
    }
}

#[test]
fn empty_pattern_is_reported() {
    let options = ResizeOptions {
        width: 8,
        height: 8,
        fit: Some(ResizeFit::Contain),
        pattern_data: Some(empty_farbfeld()),
        ..Default::default()
    };
    assert!(matches!(process_image_bytes(&red_square(4), &options), Err(ProcessError::EmptyPattern)));
}
