//! Decoded images and the `image` crate operations the pipeline applies.
//!
//! A [`Picture`] holds an `image::DynamicImage` together with its size and a
//! ghost term that records how it was made: from which bytes it was decoded
//! and which operations of the `image` crate were applied, in order, with
//! which arguments. The fields are private, and only the functions of this
//! module build a `Picture`; each of them applies exactly the operation that
//! its term names, so the term of a picture describes its pixels.
//!
//! Sizes whose pixel buffers exceed the address space are not modelled here,
//! as `vstd` does not model them for `Vec` either: the `image` crate then
//! fails to allocate.
use vstd::prelude::*;
use image::DynamicImage;
use image::imageops::FilterType;
use crate::color::Rgba;

verus! {

#[verifier::external_type_specification]
#[verifier::external_body]
pub struct ExDynamicImage(DynamicImage);

/// How a picture was made.
pub enum ImageTerm {
    /// `image::load_from_memory` of these bytes.
    Decoded(Seq<u8>),
    FlipH(Box<ImageTerm>),
    FlipV(Box<ImageTerm>),
    Rotate90(Box<ImageTerm>),
    Rotate180(Box<ImageTerm>),
    Rotate270(Box<ImageTerm>),
    /// `resize_exact` to this width and height with the Lanczos3 filter.
    ResizeExact(Box<ImageTerm>, u32, u32),
    /// `resize_to_fill` to this width and height with the Lanczos3 filter.
    ResizeToFill(Box<ImageTerm>, u32, u32),
    /// `resize` (aspect preserving) into this box with the Lanczos3 filter.
    Resize(Box<ImageTerm>, u32, u32),
    /// An RGBA8 image of this size, every pixel this colour.
    Solid(u32, u32, Rgba),
    /// An RGBA8 image of this size with these bytes, row by row, 4 per pixel.
    Raster(u32, u32, Seq<u8>),
    /// `crop_imm` at this position and size.
    Crop(Box<ImageTerm>, u32, u32, u32, u32),
    /// The first image with the second overlaid at this position.
    Overlay(Box<ImageTerm>, Box<ImageTerm>, i64, i64),
}

/// What a picture is: its size and how it was made.
pub struct PictureView {
    pub width: u32,
    pub height: u32,
    pub term: ImageTerm,
}

pub open spec fn picture_view(width: u32, height: u32, term: ImageTerm) -> PictureView {
    PictureView { width, height, term }
}

/// A decoded image.
pub struct Picture {
    image: DynamicImage,
    width: u32,
    height: u32,
    term: Ghost<ImageTerm>,
}

impl View for Picture {
    type V = PictureView;

    closed spec fn view(&self) -> PictureView {
        PictureView { width: self.width, height: self.height, term: self.term@ }
    }
}

impl Picture {
    pub fn width(&self) -> (r: u32)
        ensures r == self@.width,
    {
        self.width
    }

    pub fn height(&self) -> (r: u32)
        ensures r == self@.height,
    {
        self.height
    }

    /// The image this picture holds: the one its view's term describes, of
    /// the view's width and height.
    pub closed spec fn held_image(&self) -> DynamicImage {
        self.image
    }

    /// Hands out the image itself.
    pub fn into_image(self) -> (r: DynamicImage)
        ensures
            r == self.held_image(),
    {
        self.image
    }
}

/// The image that `image::load_from_memory` decodes from `bytes`, as its
/// width, height and RGBA8 pixel bytes (`to_rgba8`); `None` when it fails.
pub uninterp spec fn decoded_rgba8(bytes: Seq<u8>) -> Option<(u32, u32, Seq<u8>)>;

/// The text of the error that `image::load_from_memory` reports for `bytes`.
pub uninterp spec fn decode_error_text(bytes: Seq<u8>) -> Seq<char>;

/// Decodes an image with `image::load_from_memory`. It succeeds exactly when
/// `decoded_rgba8` names an image, with that size; on failure it gives the
/// error's text.
#[verifier::external_body]
pub(crate) fn load_picture(bytes: &[u8]) -> (r: Result<Picture, String>)
    ensures
        match decoded_rgba8(bytes@) {
            Some(d) => r matches Ok(p) && p@ == picture_view(d.0, d.1, ImageTerm::Decoded(bytes@)),
            None => r matches Err(e) && e@ == decode_error_text(bytes@),
        },
{
    match image::load_from_memory(bytes) {
        Ok(image) => Ok(Picture {
            width: image.width(),
            height: image.height(),
            image,
            term: Ghost(ImageTerm::Decoded(bytes@)),
        }),
        Err(e) => Err(format!("{}", e)),
    }
}

/// `DynamicImage::fliph`: mirrors left to right, same size.
#[verifier::external_body]
pub(crate) fn flip_h(p: &Picture) -> (r: Picture)
    ensures r@ == picture_view(p@.width, p@.height, ImageTerm::FlipH(Box::new(p@.term))),
{
    let image = p.image.fliph();
    Picture { width: image.width(), height: image.height(), image, term: Ghost(ImageTerm::FlipH(Box::new(p.term@))) }
}

/// `DynamicImage::flipv`: mirrors top to bottom, same size.
#[verifier::external_body]
pub(crate) fn flip_v(p: &Picture) -> (r: Picture)
    ensures r@ == picture_view(p@.width, p@.height, ImageTerm::FlipV(Box::new(p@.term))),
{
    let image = p.image.flipv();
    Picture { width: image.width(), height: image.height(), image, term: Ghost(ImageTerm::FlipV(Box::new(p.term@))) }
}

/// `DynamicImage::rotate90`: a quarter turn clockwise, width and height swap.
#[verifier::external_body]
pub(crate) fn rotate_90(p: &Picture) -> (r: Picture)
    ensures r@ == picture_view(p@.height, p@.width, ImageTerm::Rotate90(Box::new(p@.term))),
{
    let image = p.image.rotate90();
    Picture { width: image.width(), height: image.height(), image, term: Ghost(ImageTerm::Rotate90(Box::new(p.term@))) }
}

/// `DynamicImage::rotate180`: a half turn, same size.
#[verifier::external_body]
pub(crate) fn rotate_180(p: &Picture) -> (r: Picture)
    ensures r@ == picture_view(p@.width, p@.height, ImageTerm::Rotate180(Box::new(p@.term))),
{
    let image = p.image.rotate180();
    Picture { width: image.width(), height: image.height(), image, term: Ghost(ImageTerm::Rotate180(Box::new(p.term@))) }
}

/// `DynamicImage::rotate270`: three quarter turns clockwise, width and
/// height swap.
#[verifier::external_body]
pub(crate) fn rotate_270(p: &Picture) -> (r: Picture)
    ensures r@ == picture_view(p@.height, p@.width, ImageTerm::Rotate270(Box::new(p@.term))),
{
    let image = p.image.rotate270();
    Picture { width: image.width(), height: image.height(), image, term: Ghost(ImageTerm::Rotate270(Box::new(p.term@))) }
}

/// How much of `len` pixels from `start` lies inside `0..total`.
pub open spec fn cut_extent(start: u32, len: u32, total: u32) -> u32 {
    let s = if start <= total { start } else { total };
    if len <= total - s { len } else { (total - s) as u32 }
}

/// `DynamicImage::crop_imm`: the rectangle at (`x`, `y`) of size `w` x `h`,
/// cut to the image's bounds.
#[verifier::external_body]
pub(crate) fn crop(p: &Picture, x: u32, y: u32, w: u32, h: u32) -> (r: Picture)
    ensures
        r@ == picture_view(
            cut_extent(x, w, p@.width),
            cut_extent(y, h, p@.height),
            ImageTerm::Crop(Box::new(p@.term), x, y, w, h),
        ),
{
    let image = p.image.crop_imm(x, y, w, h);
    Picture { width: image.width(), height: image.height(), image, term: Ghost(ImageTerm::Crop(Box::new(p.term@), x, y, w, h)) }
}

/// `DynamicImage::resize_exact` with `FilterType::Lanczos3`: the result has
/// exactly the requested size. An image without rows or columns resamples to
/// the requested size too: no source pixel is read for it.
#[verifier::external_body]
pub(crate) fn resize_exact(p: &Picture, nw: u32, nh: u32) -> (r: Picture)
    ensures
        r@ == picture_view(nw, nh, ImageTerm::ResizeExact(Box::new(p@.term), nw, nh)),
{
    let image = p.image.resize_exact(nw, nh, FilterType::Lanczos3);
    Picture { width: image.width(), height: image.height(), image, term: Ghost(ImageTerm::ResizeExact(Box::new(p.term@), nw, nh)) }
}

/// The size that `DynamicImage::resize` gives an image of size `w` x `h`
/// asked to fit into `nw` x `nh`.
pub uninterp spec fn fitted_size(w: u32, h: u32, nw: u32, nh: u32) -> (u32, u32);

/// Whether `rw` x `rh` lies inside the box `nw` x `nh`, reaches it on one
/// side at least, and keeps the aspect ratio of `w` x `h` up to rounding:
/// `rw / rh` and `w / h` differ by less than one pixel's worth.
pub open spec fn fits_with_aspect(w: u32, h: u32, nw: u32, nh: u32, rw: u32, rh: u32) -> bool {
    let slack: int = if w >= h { w as int } else { h as int };
    &&& 1 <= rw <= nw
    &&& 1 <= rh <= nh
    &&& rw == nw || rh == nh
    &&& -slack <= (rw as int) * (h as int) - (rh as int) * (w as int) <= slack
}

/// `DynamicImage::resize` with `FilterType::Lanczos3`: scales the image,
/// keeping its aspect ratio, to the largest size that fits into `nw` x `nh`.
/// When the size asked for is the image's own, the image is copied. The
/// result is never empty; it fits when the box is not empty, and for an
/// image with pixels it then reaches the box on one side and keeps the
/// aspect ratio up to rounding (the scale is the smaller of `nw / w` and
/// `nh / h`, the scaled sides are rounded).
#[verifier::external_body]
pub(crate) fn resize_fit(p: &Picture, nw: u32, nh: u32) -> (r: Picture)
    ensures
        r@ == picture_view(
            fitted_size(p@.width, p@.height, nw, nh).0,
            fitted_size(p@.width, p@.height, nw, nh).1,
            ImageTerm::Resize(Box::new(p@.term), nw, nh),
        ),
        nw == p@.width && nh == p@.height ==> r@.width == nw && r@.height == nh,
        nw >= 1 && nh >= 1 ==> 1 <= r@.width <= nw && 1 <= r@.height <= nh,
        p@.width >= 1 && p@.height >= 1 && nw >= 1 && nh >= 1
            ==> fits_with_aspect(p@.width, p@.height, nw, nh, r@.width, r@.height),
{
    let image = p.image.resize(nw, nh, FilterType::Lanczos3);
    Picture { width: image.width(), height: image.height(), image, term: Ghost(ImageTerm::Resize(Box::new(p.term@), nw, nh)) }
}

/// The size that `DynamicImage::resize_to_fill` gives an image of size
/// `w` x `h` asked to fill `nw` x `nh`.
pub uninterp spec fn filled_size(w: u32, h: u32, nw: u32, nh: u32) -> (u32, u32);

/// Whether scaling `w` x `h` to cover `nw` x `nh` keeps both scaled sides
/// below `u32::MAX`, so that `resize_to_fill` need not cap them.
pub open spec fn fill_scale_fits(w: u32, h: u32, nw: u32, nh: u32) -> bool {
    &&& (w as int) * (nh as int) <= (u32::MAX - 1) * (h as int)
    &&& (h as int) * (nw as int) <= (u32::MAX - 1) * (w as int)
}

/// Whether `resize_to_fill` can take an image of `w` x `h` to `nw` x `nh`.
/// For an image without rows or columns the scale is unbounded. With both
/// sides empty the image is scaled to a single pixel, and the crop takes
/// its offset by subtracting the box from it, which overflows when both
/// sides of the box exceed one. With one side empty, the other is scaled to
/// `u32::MAX` pixels, an image of gigabytes, which is left out here, unless
/// the box is empty on the same side, which keeps the scale finite.
pub open spec fn fill_defined(w: u32, h: u32, nw: u32, nh: u32) -> bool {
    ||| w >= 1 && h >= 1
    ||| w == 0 && h == 0 && (nw <= 1 || nh <= 1)
    ||| w == 0 && h >= 1 && nw == 0
    ||| w >= 1 && h == 0 && nh == 0
}

/// `DynamicImage::resize_to_fill` with `FilterType::Lanczos3`: scales the
/// image, keeping its aspect ratio, until it covers `nw` x `nh`, then crops
/// the overflow around the centre; the crop is `nw` x `nh` cut to the scaled
/// image, so the result never exceeds the box, and for an image with pixels
/// it is the box exactly when neither scaled side had to be capped at
/// `u32::MAX`.
#[verifier::external_body]
pub(crate) fn resize_fill(p: &Picture, nw: u32, nh: u32) -> (r: Picture)
    requires
        fill_defined(p@.width, p@.height, nw, nh),
    ensures
        r@ == picture_view(
            filled_size(p@.width, p@.height, nw, nh).0,
            filled_size(p@.width, p@.height, nw, nh).1,
            ImageTerm::ResizeToFill(Box::new(p@.term), nw, nh),
        ),
        r@.width <= nw && r@.height <= nh,
        p@.width >= 1 && p@.height >= 1 && nw >= 1 && nh >= 1
            && fill_scale_fits(p@.width, p@.height, nw, nh) ==> r@.width == nw && r@.height == nh,
{
    let image = p.image.resize_to_fill(nw, nh, FilterType::Lanczos3);
    Picture { width: image.width(), height: image.height(), image, term: Ghost(ImageTerm::ResizeToFill(Box::new(p.term@), nw, nh)) }
}

/// Whether an RGBA8 buffer of this size can be laid out: `ImageBuffer::new`
/// panics when its length overflows `usize`.
pub open spec fn rgba_len_fits(w: u32, h: u32) -> bool {
    4 * ((w as int) * (h as int)) <= usize::MAX
}

/// `RgbaImage::from_pixel`: every pixel `color`.
#[verifier::external_body]
pub(crate) fn solid_picture(w: u32, h: u32, color: Rgba) -> (r: Picture)
    requires
        rgba_len_fits(w, h),
    ensures
        r@ == picture_view(w, h, ImageTerm::Solid(w, h, color)),
{
    let px = image::Rgba([color.r, color.g, color.b, color.a]);
    let image = DynamicImage::ImageRgba8(image::RgbaImage::from_pixel(w, h, px));
    Picture { width: w, height: h, image, term: Ghost(ImageTerm::Solid(w, h, color)) }
}

/// `RgbaImage::from_raw`: an RGBA8 image over `data`, which it accepts as it
/// holds 4 bytes for each pixel.
#[verifier::external_body]
pub(crate) fn raster_picture(w: u32, h: u32, data: Vec<u8>) -> (r: Option<Picture>)
    requires
        data@.len() == 4 * ((w as int) * (h as int)),
    ensures
        r is Some,
        r matches Some(p) ==> p@ == picture_view(w, h, ImageTerm::Raster(w, h, data@)),
{
    let ghost bytes = data@;
    match image::RgbaImage::from_raw(w, h, data) {
        Some(buf) => Some(Picture { width: w, height: h, image: DynamicImage::ImageRgba8(buf), term: Ghost(ImageTerm::Raster(w, h, bytes)) }),
        None => None,
    }
}

/// `imageops::overlay`: draws `top` over `bottom` with its top-left corner at
/// (`x`, `y`), blending by alpha and clipping to `bottom`, whose size stays.
#[verifier::external_body]
pub(crate) fn overlay(bottom: &mut Picture, top: &Picture, x: i64, y: i64)
    ensures
        final(bottom)@ == picture_view(
            old(bottom)@.width,
            old(bottom)@.height,
            ImageTerm::Overlay(Box::new(old(bottom)@.term), Box::new(top@.term), x, y),
        ),
{
    image::imageops::overlay(&mut bottom.image, &top.image, x, y);
    bottom.term = Ghost(ImageTerm::Overlay(Box::new(bottom.term@), Box::new(top.term@), x, y));
}

/// `DynamicImage::to_rgba8` and `into_raw`: the pixels as RGBA8 bytes, row
/// by row, 4 per pixel; for a picture as decoded, the bytes that
/// `decoded_rgba8` names.
#[verifier::external_body]
pub(crate) fn rgba8_pixels(p: &Picture) -> (r: Vec<u8>)
    ensures
        r@.len() == 4 * ((p@.width as int) * (p@.height as int)),
        p@.term matches ImageTerm::Decoded(b) ==> decoded_rgba8(b) == Some((p@.width, p@.height, r@)),
{
    p.image.to_rgba8().into_raw()
}

/// The EXIF orientation tag of `bytes`: the first value of `Orientation` in
/// the primary image directory, when `exif::Reader` finds one.
pub uninterp spec fn exif_orientation(bytes: Seq<u8>) -> Option<u32>;

/// Reads the EXIF `Orientation` tag with `exif::Reader::read_from_container`,
/// `Exif::get_field(Tag::Orientation, In::PRIMARY)` and `Value::get_uint(0)`.
#[verifier::external_body]
pub(crate) fn read_orientation(bytes: &[u8]) -> (r: Option<u32>)
    ensures
        r == exif_orientation(bytes@),
{
    let reader = exif::Reader::new();
    let found = reader.read_from_container(&mut std::io::Cursor::new(bytes)).ok()?;
    let field = found.get_field(exif::Tag::Orientation, exif::In::PRIMARY)?;
    field.value.get_uint(0)
}

} // verus!
