use avif_converter::crop::{
    clamp_crop_rect, parse_bbox_values, parse_decimal, CropBox, CropRect, CropUnit, CropValues,
    Decimal,
};
use avif_converter::fit::ResizeFit;
use avif_converter::format::{any_transparent, choose_encoding, select_output_format, OutputFormat};
use avif_converter::pipeline::{process_image_bytes, ProcessError, Progress, ResizeOptions};
use avif_converter::request::{parse_query, QueryParams, RequestError};
use image::{GenericImageView, ImageOutputFormat, Rgba, RgbaImage};
use std::io::Cursor;

fn dec(text: &str) -> Decimal {
    let b = text.as_bytes();
    parse_decimal(b, 0, b.len()).unwrap()
}

fn d(negative: bool, nanos: u64) -> Decimal {
    Decimal { negative, nanos }
}

fn crop_box(text: &str, unit: CropUnit) -> CropBox {
    CropBox { values: parse_bbox_values(text.as_bytes()).unwrap(), unit }
}

fn query(url: Option<&str>) -> QueryParams {
    QueryParams {
        url: url.map(|s| s.to_string()),
        width: None,
        height: None,
        fit: None,
        bg: None,
        pattern: None,
        bbox: None,
        bbox_unit: None,
        bbox_x: None,
        bbox_y: None,
        bbox_w: None,
        bbox_h: None,
        ext: None,
        accept: None,
    }
}

fn some(s: &str) -> Option<String> {
    Some(s.to_string())
}

#[test]
fn decimals() {
    assert_eq!(dec("100"), d(false, 100_000_000_000));
    assert_eq!(dec("0.25"), d(false, 250_000_000));
    assert_eq!(dec(" -5 "), d(true, 5_000_000_000));
    assert_eq!(dec("+.5"), d(false, 500_000_000));
    assert_eq!(dec("7."), d(false, 7_000_000_000));
    assert_eq!(dec(".000000001"), d(false, 1));
    assert_eq!(parse_decimal(b"0.000000001", 0, 11), Some(d(false, 1)));
    // any number of digits; nine decimal places count
    assert_eq!(dec("1234567890"), d(false, 1_234_567_890_000_000_000));
    assert_eq!(dec("0.0000000001"), d(false, 0));
    assert_eq!(dec("0.3333333333"), d(false, 333_333_333));
    assert_eq!(dec("-0.66666666666666"), d(true, 666_666_666));
    assert_eq!(dec("0012.50"), d(false, 12_500_000_000));
    // sizes of ten billion or more count as ten billion
    assert_eq!(dec("9999999999.999999999"), d(false, 9_999_999_999_999_999_999));
    assert_eq!(dec("10000000000"), d(false, 10_000_000_000_000_000_000));
    assert_eq!(dec("-123456789012345678901234567890"), d(true, 10_000_000_000_000_000_000));
    let none = |t: &str| parse_decimal(t.as_bytes(), 0, t.len());
    assert_eq!(none(""), None);
    assert_eq!(none("."), None);
    assert_eq!(none("-"), None);
    assert_eq!(none("1.2.3"), None);
    assert_eq!(none("1e3"), None);
    assert_eq!(none("0.3333333333x"), None);
    assert_eq!(none("12345678901234567890a"), None);
}

#[test]
fn bbox_values() {
    let v = parse_bbox_values(b"100,50,400,300").unwrap();
    assert_eq!(
        v,
        CropValues { x: dec("100"), y: dec("50"), w: dec("400"), h: dec("300") }
    );
    let v = parse_bbox_values(b"0.1, 0.1, 0.8, 0.8").unwrap();
    assert_eq!(v.x, dec("0.1"));
    assert_eq!(v.h, dec("0.8"));
    assert_eq!(parse_bbox_values(b"1,2,3"), None);
    assert_eq!(parse_bbox_values(b"1,2,3,4,5"), None);
    assert_eq!(parse_bbox_values(b"1,2,,4"), None);
    assert_eq!(parse_bbox_values(b"a,2,3,4"), None);
    assert_eq!(parse_bbox_values(b""), None);
}

#[test]
fn crop_rects() {
    let rect = |x, y, w, h| Some(CropRect { x, y, w, h });
    assert_eq!(clamp_crop_rect(&crop_box("100,50,400,300", CropUnit::Px), 1000, 1000), rect(100, 50, 400, 300));
    // clamped to the image
    assert_eq!(clamp_crop_rect(&crop_box("-10,-10,50,50", CropUnit::Px), 30, 20), rect(0, 0, 30, 20));
    assert_eq!(clamp_crop_rect(&crop_box("90,0,50,10", CropUnit::Px), 100, 100), rect(90, 0, 10, 10));
    // no area left
    assert_eq!(clamp_crop_rect(&crop_box("200,0,50,10", CropUnit::Px), 100, 100), None);
    assert_eq!(clamp_crop_rect(&crop_box("0,0,0,10", CropUnit::Px), 100, 100), None);
    assert_eq!(clamp_crop_rect(&crop_box("10,10,-5,10", CropUnit::Px), 100, 100), None);
    // fractions of the image
    assert_eq!(clamp_crop_rect(&crop_box("0.1,0.1,0.8,0.8", CropUnit::Norm), 200, 100), rect(20, 10, 160, 80));
    assert_eq!(clamp_crop_rect(&crop_box("0,0,1,1", CropUnit::Norm), 7, 3), rect(0, 0, 7, 3));
    // edges round to the nearest pixel, halves away from zero
    assert_eq!(clamp_crop_rect(&crop_box("0.5,1.4,2,2.2", CropUnit::Px), 10, 10), rect(1, 1, 2, 3));
    assert_eq!(clamp_crop_rect(&crop_box("0.25,0,0.5,1", CropUnit::Norm), 10, 4), rect(3, 0, 5, 4));
    // thirds written to ten places
    assert_eq!(
        clamp_crop_rect(&crop_box("0.3333333333,0,0.3333333333,1", CropUnit::Norm), 300, 10),
        rect(100, 0, 100, 10)
    );
    // huge values are clamped to the image
    assert_eq!(
        clamp_crop_rect(&crop_box("5,0,99999999999999999999,5", CropUnit::Px), 40, 10),
        rect(5, 0, 35, 5)
    );
    assert_eq!(clamp_crop_rect(&crop_box("-99999999999999999999,0,50,5", CropUnit::Px), 40, 10), None);
}

fn png_bytes(img: &RgbaImage) -> Vec<u8> {
    let mut cursor = Cursor::new(Vec::new());
    img.write_to(&mut cursor, ImageOutputFormat::Png).unwrap();
    cursor.into_inner()
}

#[test]
fn crop_happens_before_resize() {
    let mut img = RgbaImage::new(10, 10);
    for y in 0..10 {
        for x in 0..10 {
            img.put_pixel(x, y, Rgba([x as u8 * 20, y as u8 * 20, 0, 255]));
        }
    }
    let options = ResizeOptions {
        crop: Some(crop_box("2,3,4,5", CropUnit::Px)),
        ..Default::default()
    };
    let p = match process_image_bytes(&png_bytes(&img), &options) {
        Ok(Progress::Done(p)) => p.into_image(),
        _ => panic!("expected a picture"),
    };
    assert_eq!(p.dimensions(), (4, 5));
    assert_eq!(p.get_pixel(0, 0), Rgba([40, 60, 0, 255]));

    let options = ResizeOptions {
        width: 8,
        height: 8,
        fit: Some(ResizeFit::Fill),
        crop: Some(crop_box("0,0,0.5,0.5", CropUnit::Norm)),
        ..Default::default()
    };
    match process_image_bytes(&png_bytes(&img), &options) {
        Ok(Progress::Done(p)) => assert_eq!((p.width(), p.height()), (8, 8)),
        _ => panic!("expected a picture"),
    }
    // a box outside the image is ignored
    let options = ResizeOptions {
        crop: Some(crop_box("50,50,5,5", CropUnit::Px)),
        ..Default::default()
    };
    match process_image_bytes(&png_bytes(&img), &options) {
        Ok(Progress::Done(p)) => assert_eq!((p.width(), p.height()), (10, 10)),
        Err(ProcessError::Decode(_)) | Err(_) | Ok(_) => panic!("expected a picture"),
    }
}

#[test]
fn output_formats() {
    assert_eq!(select_output_format(None, None), Some(OutputFormat::Avif));
    assert_eq!(select_output_format(Some("png"), Some("image/jpeg")), Some(OutputFormat::Png));
    assert_eq!(select_output_format(Some("JPG"), None), Some(OutputFormat::Jpeg));
    assert_eq!(select_output_format(Some("jpeg"), None), Some(OutputFormat::Jpeg));
    assert_eq!(select_output_format(Some("avif"), None), Some(OutputFormat::Avif));
    assert_eq!(select_output_format(Some("gif"), None), None);
    assert_eq!(select_output_format(None, Some("image/png")), Some(OutputFormat::Png));
    assert_eq!(select_output_format(None, Some("image/jpeg")), Some(OutputFormat::Jpeg));
    assert_eq!(select_output_format(None, Some("image/png, image/*")), Some(OutputFormat::Avif));
    assert_eq!(select_output_format(None, Some("IMAGE/PNG")), Some(OutputFormat::Avif));
    assert_eq!(OutputFormat::Jpeg.content_type(), "image/jpeg");
    assert_eq!(OutputFormat::Png.content_type(), "image/png");
    assert_eq!(OutputFormat::Avif.content_type(), "image/avif");
}

#[test]
fn jpeg_falls_back_to_png_for_transparency() {
    assert_eq!(choose_encoding(OutputFormat::Jpeg, true, false), OutputFormat::Png);
    assert_eq!(choose_encoding(OutputFormat::Jpeg, true, true), OutputFormat::Jpeg);
    assert_eq!(choose_encoding(OutputFormat::Jpeg, false, false), OutputFormat::Jpeg);
    assert_eq!(choose_encoding(OutputFormat::Avif, true, false), OutputFormat::Avif);
    assert!(any_transparent(&[1, 2, 3, 255, 4, 5, 6, 254]));
    assert!(!any_transparent(&[1, 2, 3, 255, 4, 5, 6, 255]));
    assert!(!any_transparent(&[]));
}

#[test]
fn query_crop_and_format() {
    let mut q = query(Some("u"));
    q.bbox = some("100,50,400,300");
    q.ext = some("png");
    let r = parse_query(&q).ok().unwrap();
    assert_eq!(r.crop, Some(crop_box("100,50,400,300", CropUnit::Px)));
    assert_eq!(r.format, OutputFormat::Png);

    let mut q = query(Some("u"));
    q.bbox_x = some("0.1");
    q.bbox_y = some("0.1");
    q.bbox_w = some("0.8");
    q.bbox_h = some("0.8");
    q.bbox_unit = some("norm");
    q.accept = some("image/jpeg");
    let r = parse_query(&q).ok().unwrap();
    assert_eq!(r.crop, Some(crop_box("0.1,0.1,0.8,0.8", CropUnit::Norm)));
    assert_eq!(r.format, OutputFormat::Jpeg);

    // long fractions are accepted, not refused
    let mut q = query(Some("u"));
    q.bbox = some("0.3333333333,0.25,0.3333333333,0.5");
    q.bbox_unit = some("norm");
    let r = parse_query(&q).ok().unwrap();
    assert_eq!(r.crop.unwrap().values.x, d(false, 333_333_333));

    let mut q = query(Some("u"));
    q.bbox = some("1,2,3");
    assert_eq!(parse_query(&q).err(), Some(RequestError::InvalidBbox));
    assert_eq!(RequestError::InvalidBbox.message(), "Invalid bbox");

    let mut q = query(Some("u"));
    q.bbox_x = some("1");
    assert_eq!(parse_query(&q).err(), Some(RequestError::InvalidBbox));

    let mut q = query(Some("u"));
    q.bbox_unit = some("inch");
    assert_eq!(parse_query(&q).err(), Some(RequestError::InvalidBboxUnit));
    assert_eq!(RequestError::InvalidBboxUnit.message(), "Invalid bbox_unit");

    let mut q = query(Some("u"));
    q.ext = some("webp");
    assert_eq!(parse_query(&q).err(), Some(RequestError::UnsupportedExt));
    assert_eq!(RequestError::UnsupportedExt.message(), "Unsupported ext");

    let r = parse_query(&query(Some("u"))).ok().unwrap();
    assert_eq!(r.crop, None);
    assert_eq!(r.format, OutputFormat::Avif);
}
