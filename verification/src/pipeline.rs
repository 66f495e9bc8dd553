//! The conversion pipeline: decode, make upright, crop, then resize to the
//! fit that the request asks for.
use vstd::prelude::*;
use vstd::utf8::encode_utf8;
use crate::background::{background_view, create_background, opt_slice, pattern_of};
use vstd::string::StringSliceAdditionalSpecFns;
use crate::crop::{CropBox, clamp_crop_rect, crop_rect};
use crate::fit::ResizeFit;
use crate::orientation::{apply_orientation, oriented_view};
use crate::picture::{
    ImageTerm, Picture, PictureView, crop, decode_error_text, decoded_rgba8, exif_orientation,
    fill_defined, fill_scale_fits, filled_size, fits_with_aspect, fitted_size, load_picture, overlay,
    picture_view, read_orientation, resize_exact, resize_fill, resize_fit, rgba_len_fits,
};

verus! {

/// What the request asks of the image.
#[derive(Debug, Clone)]
pub struct ResizeOptions {
    /// Target width; 0 keeps the image's own.
    pub width: u32,
    /// Target height; 0 keeps the image's own.
    pub height: u32,
    pub fit: Option<ResizeFit>,
    /// Padding colour for `contain`.
    pub bg: Option<String>,
    /// Encoded image tiled as padding for `contain`.
    pub pattern_data: Option<Vec<u8>>,
    /// Part of the upright image to keep before resizing.
    pub crop: Option<CropBox>,
}

impl Default for ResizeOptions {
    fn default() -> (r: Self)
        ensures
            r.width == 0,
            r.height == 0,
            r.fit is None,
            r.bg is None,
            r.pattern_data is None,
            r.crop is None,
    {
        ResizeOptions { width: 0, height: 0, fit: None, bg: None, pattern_data: None, crop: None }
    }
}

/// The bytes of the `bg` text.
pub open spec fn bg_bytes(o: &ResizeOptions) -> Option<Seq<u8>> {
    match o.bg {
        Some(s) => Some(encode_utf8(s@)),
        None => None,
    }
}

pub open spec fn pattern_bytes(o: &ResizeOptions) -> Option<Seq<u8>> {
    match o.pattern_data {
        Some(v) => Some(v@),
        None => None,
    }
}

/// Whether `o` asks for any resizing at all.
pub open spec fn resizes(o: &ResizeOptions) -> bool {
    o.width > 0 || o.height > 0
}

/// The box to resize into: each side as asked, or the image's own.
pub open spec fn target_size(v: PictureView, o: &ResizeOptions) -> (u32, u32) {
    (if o.width > 0 { o.width } else { v.width }, if o.height > 0 { o.height } else { v.height })
}

/// Why an image cannot be processed; each is a case that would abort the
/// request.
#[derive(Debug)]
pub enum ProcessError {
    /// The bytes do not decode; the text is the decoder's.
    Decode(String),
    /// The image has no rows or no columns, and the resize cannot place it:
    /// `cover` would scale it without bound (see `fill_defined`), `contain`
    /// would centre it in a box with no rows or no columns.
    EmptyImage,
    /// The padding canvas would hold more bytes than `usize` counts.
    CanvasTooLarge,
    /// The pattern decodes to an image without pixels to repeat.
    EmptyPattern,

}

/// A processing result, or the size still to be worked out.
pub enum Progress {
    Done(Picture),
    /// Resize keeping the aspect ratio to this width; the height is
    /// `round(width / (w / h))` in `f32` for the picture's `w` x `h`.
    ScaleWidthTo(Picture, u32),
    /// Resize keeping the aspect ratio to this height; the width is
    /// `round(height * (w / h))` in `f32` for the picture's `w` x `h`.
    ScaleHeightTo(Picture, u32),
}

/// The view of a [`Progress`].
pub enum Step {
    Done(PictureView),
    ScaleWidthTo(PictureView, u32),
    ScaleHeightTo(PictureView, u32),
}

pub open spec fn step_of(p: &Progress) -> Step {
    match p {
        Progress::Done(x) => Step::Done(x@),
        Progress::ScaleWidthTo(x, w) => Step::ScaleWidthTo(x@, *w),
        Progress::ScaleHeightTo(x, h) => Step::ScaleHeightTo(x@, *h),
    }
}

/// The image `contain` gives: the image fitted into the box, centred on the
/// padding canvas of the box's size.
pub open spec fn contained_view(v: PictureView, o: &ResizeOptions) -> PictureView {
    let (tw, th) = target_size(v, o);
    let fs = fitted_size(v.width, v.height, tw, th);
    let canvas = background_view(tw, th, bg_bytes(o), pattern_bytes(o));
    picture_view(
        tw,
        th,
        ImageTerm::Overlay(
            Box::new(canvas.term),
            Box::new(ImageTerm::Resize(Box::new(v.term), tw, th)),
            ((tw - fs.0) / 2) as i64,
            ((th - fs.1) / 2) as i64,
        ),
    )
}

/// The aspect preserving resize into `tw` x `th`.
pub open spec fn fitted_view(v: PictureView, tw: u32, th: u32) -> PictureView {
    let fs = fitted_size(v.width, v.height, tw, th);
    picture_view(fs.0, fs.1, ImageTerm::Resize(Box::new(v.term), tw, th))
}

/// What resizing an upright image `v` as `o` asks gives.
pub open spec fn resize_step(v: PictureView, o: &ResizeOptions) -> Step {
    if !resizes(o) {
        Step::Done(v)
    } else {
        let (tw, th) = target_size(v, o);
        match o.fit {
            Some(ResizeFit::Fill) => Step::Done(picture_view(tw, th, ImageTerm::ResizeExact(Box::new(v.term), tw, th))),
            Some(ResizeFit::Cover) => {
                let fs = filled_size(v.width, v.height, tw, th);
                Step::Done(picture_view(fs.0, fs.1, ImageTerm::ResizeToFill(Box::new(v.term), tw, th)))
            },
            Some(ResizeFit::Contain) => Step::Done(contained_view(v, o)),
            None => if o.width > 0 && o.height > 0 {
                Step::Done(fitted_view(v, tw, th))
            } else if o.width > 0 {
                Step::ScaleWidthTo(v, tw)
            } else {
                Step::ScaleHeightTo(v, th)
            },
        }
    }
}

/// Whether `contain` would have to centre the resized image in a box with
/// no rows or no columns: the resize always gives at least one pixel, unless
/// the box is the image's own size, in which case it copies the image.
pub open spec fn contain_box_empty(v: PictureView, tw: u32, th: u32) -> bool {
    !(tw == v.width && th == v.height) && (tw == 0 || th == 0)
}

/// The case, if any, in which resizing `v` as `o` asks would abort.
pub open spec fn resize_failure(v: PictureView, o: &ResizeOptions) -> Option<ProcessError> {
    if !resizes(o) {
        None
    } else {
        let (tw, th) = target_size(v, o);
        match o.fit {
            Some(ResizeFit::Fill) => None,
            Some(ResizeFit::Cover) => if fill_defined(v.width, v.height, tw, th) { None } else { Some(ProcessError::EmptyImage) },
            Some(ResizeFit::Contain) => if contain_box_empty(v, tw, th) {
                Some(ProcessError::EmptyImage)
            } else {
                match pattern_of(pattern_bytes(o)) {
                    Some(p) => if !rgba_len_fits(tw, th) {
                        Some(ProcessError::CanvasTooLarge)
                    } else if tw >= 1 && th >= 1 && (p.0 == 0 || p.1 == 0) {
                        Some(ProcessError::EmptyPattern)
                    } else {
                        None
                    },
                    None => if !rgba_len_fits(tw, th) {
                        Some(ProcessError::CanvasTooLarge)
                    } else {
                        None
                    },
                }
            },
            None => None,
        }
    }
}

/// `contain` places the fitted image inside the canvas, centred: the margin
/// after it is the margin before it, or one pixel more.
pub open spec fn contain_centred(v: PictureView, tw: u32, th: u32) -> bool {
    let fs = fitted_size(v.width, v.height, tw, th);
    let left = (tw - fs.0) / 2;
    let top = (th - fs.1) / 2;
    &&& fs.0 <= tw && fs.1 <= th
    &&& left <= tw - fs.0 - left <= left + 1
    &&& top <= th - fs.1 - top <= top + 1
}

/// The aspect preserving resize of an image with pixels into a box with
/// rows and columns reaches the box on one side and keeps the aspect ratio
/// up to rounding.
pub open spec fn fit_keeps_aspect(v: PictureView, tw: u32, th: u32) -> bool {
    let fs = fitted_size(v.width, v.height, tw, th);
    v.width >= 1 && v.height >= 1 && tw >= 1 && th >= 1 ==> fits_with_aspect(v.width, v.height, tw, th, fs.0, fs.1)
}

/// `cover` never exceeds the box, and for an image with pixels fills it
/// exactly unless a scaled side would reach `u32::MAX`.
pub open spec fn cover_fills(v: PictureView, tw: u32, th: u32) -> bool {
    let fs = filled_size(v.width, v.height, tw, th);
    &&& fs.0 <= tw && fs.1 <= th
    &&& v.width >= 1 && v.height >= 1 && tw >= 1 && th >= 1 && fill_scale_fits(v.width, v.height, tw, th)
        ==> fs.0 == tw && fs.1 == th
}

/// What resizing `v` as `o` asks guarantees of the sizes it produces.
pub open spec fn resize_guarantees(v: PictureView, o: &ResizeOptions) -> bool {
    let (tw, th) = target_size(v, o);
    resizes(o) ==> match o.fit {
        Some(ResizeFit::Contain) => contain_centred(v, tw, th) && fit_keeps_aspect(v, tw, th),
        Some(ResizeFit::Cover) => cover_fills(v, tw, th),
        Some(ResizeFit::Fill) => true,
        None => o.width > 0 && o.height > 0 ==> fit_keeps_aspect(v, tw, th),
    }
}

fn bg_str(o: &ResizeOptions) -> (r: Option<&str>)
    ensures
        match r {
            Some(t) => bg_bytes(o) == Some(t.spec_bytes()),
            None => bg_bytes(o) is None,
        },
{
    match &o.bg {
        Some(s) => Some(s.as_str()),
        None => None,
    }
}

fn pattern_slice(o: &ResizeOptions) -> (r: Option<&[u8]>)
    ensures
        opt_slice(r) == pattern_bytes(o),
{
    match &o.pattern_data {
        Some(v) => Some(v.as_slice()),
        None => None,
    }
}

/// Resizes an upright image as `options` ask: `fill` stretches it to the box,
/// `cover` fills the box and crops, `contain` fits it into the box and
/// centres it on the padding canvas; with no fit, both sides given fit it
/// into the box, one side given leaves the other to be scaled by the aspect
/// ratio. Without a width or height it is left alone.
pub fn resize_picture(img: Picture, options: &ResizeOptions) -> (r: Progress)
    requires
        resize_failure(img@, options) is None,
    ensures
        step_of(&r) == resize_step(img@, options),
        resize_guarantees(img@, options),
{
    if !(options.width > 0 || options.height > 0) {
        return Progress::Done(img);
    }
    let tw = if options.width > 0 { options.width } else { img.width() };
    let th = if options.height > 0 { options.height } else { img.height() };
    match options.fit {
        Some(ResizeFit::Fill) => Progress::Done(resize_exact(&img, tw, th)),
        Some(ResizeFit::Cover) => Progress::Done(resize_fill(&img, tw, th)),
        Some(ResizeFit::Contain) => {
            let resized = resize_fit(&img, tw, th);
            let mut canvas = create_background(tw, th, bg_str(options), pattern_slice(options));
            let x = (tw - resized.width()) / 2;
            let y = (th - resized.height()) / 2;
            overlay(&mut canvas, &resized, x as i64, y as i64);
            Progress::Done(canvas)
        },
        None => {
            if options.width > 0 && options.height > 0 {
                Progress::Done(resize_fit(&img, tw, th))
            } else if options.width > 0 {
                Progress::ScaleWidthTo(img, tw)
            } else {
                Progress::ScaleHeightTo(img, th)
            }
        },
    }
}

/// Law: without a width or a height the image is left as it is, whatever
/// the fit.
pub proof fn law_no_size_keeps_image(v: PictureView, o: &ResizeOptions)
    requires
        o.width == 0,
        o.height == 0,
    ensures
        resize_step(v, o) == Step::Done(v),
        resize_failure(v, o) is None,
{
}

/// Law: `fill` and `contain` give exactly the box asked for, each side
/// given or else the image's own.
pub proof fn law_box_size(v: PictureView, o: &ResizeOptions)
    requires
        resizes(o),
        o.fit == Some(ResizeFit::Fill) || o.fit == Some(ResizeFit::Contain),
    ensures
        resize_step(v, o) matches Step::Done(r) && r.width == target_size(v, o).0
            && r.height == target_size(v, o).1,
        o.width > 0 ==> target_size(v, o).0 == o.width,
        o.height > 0 ==> target_size(v, o).1 == o.height,
{
}

/// Law: `fill` and the default fit resize every image, with pixels or not.
pub proof fn law_fill_and_default_always_resize(v: PictureView, o: &ResizeOptions)
    requires
        o.fit is None || o.fit == Some(ResizeFit::Fill),
    ensures
        resize_failure(v, o) is None,
{
}

/// Law: an image with pixels is always resized by `fill`, `cover` and the
/// default; `contain` too when its canvas fits and no pattern is given,
/// whatever the `bg` text.
pub proof fn law_images_with_pixels_resize(v: PictureView, o: &ResizeOptions)
    requires
        v.width >= 1,
        v.height >= 1,
        o.fit == Some(ResizeFit::Contain) ==> rgba_len_fits(target_size(v, o).0, target_size(v, o).1)
            && o.pattern_data is None,
    ensures
        resize_failure(v, o) is None,
{
}

/// Law: `contain` gives a canvas of the box's size (each side as asked, or
/// the image's own) with the image, fitted into the box, drawn over it at
/// its centre: the left margin is half the room left across, rounded down,
/// the top margin half the room left down; so the margin after the image is
/// the margin before it or one pixel more.
pub proof fn law_contain_centres(v: PictureView, o: &ResizeOptions)
    requires
        o.width > 0 || o.height > 0,
        o.fit == Some(ResizeFit::Contain),
    ensures
        ({
            let tw = if o.width > 0 { o.width } else { v.width };
            let th = if o.height > 0 { o.height } else { v.height };
            let fs = fitted_size(v.width, v.height, tw, th);
            &&& resize_step(v, o) matches Step::Done(r)
            &&& r.width == tw && r.height == th
            &&& r.term matches ImageTerm::Overlay(canvas, placed, x, y)
            &&& *canvas == background_view(tw, th, bg_bytes(o), pattern_bytes(o)).term
            &&& *placed == ImageTerm::Resize(Box::new(v.term), tw, th)
            &&& x as int == (tw as int - fs.0 as int) / 2
            &&& y as int == (th as int - fs.1 as int) / 2
            &&& fs.0 <= tw ==> x <= tw - fs.0 - x <= x + 1
            &&& fs.1 <= th ==> y <= th - fs.1 - y <= y + 1
        }),
{
}

/// Law: with no fit and one side given, the image waits to be scaled to that
/// side; with both given it is fitted into the box.
pub proof fn law_default_fit(v: PictureView, o: &ResizeOptions)
    requires
        o.fit is None,
    ensures
        o.width > 0 && o.height == 0 ==> resize_step(v, o) == Step::ScaleWidthTo(v, o.width),
        o.width == 0 && o.height > 0 ==> resize_step(v, o) == Step::ScaleHeightTo(v, o.height),
        o.width > 0 && o.height > 0 ==> resize_step(v, o) == Step::Done(fitted_view(v, o.width, o.height)),
{
}

/// The EXIF orientation of the image in `bytes`, upright (1) when it has none.
pub open spec fn orientation_of(bytes: Seq<u8>) -> u32 {
    match exif_orientation(bytes) {
        Some(o) => o,
        None => 1,
    }
}

/// The image in `bytes`, decoded and made upright.
pub open spec fn upright_view(bytes: Seq<u8>) -> Option<PictureView> {
    match decoded_rgba8(bytes) {
        Some(d) => Some(oriented_view(picture_view(d.0, d.1, ImageTerm::Decoded(bytes)), orientation_of(bytes))),
        None => None,
    }
}

/// The image cut to the crop box, when one is given and covers pixels.
pub open spec fn cropped_view(v: PictureView, c: Option<CropBox>) -> PictureView {
    match c {
        Some(b) => match crop_rect(b, v.width, v.height) {
            Some(r) => picture_view(r.w, r.h, ImageTerm::Crop(Box::new(v.term), r.x, r.y, r.w, r.h)),
            None => v,
        },
        None => v,
    }
}

/// The image in `bytes`, decoded, upright and cropped as `o` asks.
pub open spec fn prepared_view(bytes: Seq<u8>, o: &ResizeOptions) -> Option<PictureView> {
    match upright_view(bytes) {
        Some(v) => Some(cropped_view(v, o.crop)),
        None => None,
    }
}

/// Law: the crop comes after the EXIF turn and before the resize. With a
/// crop box, the image resized is the upright image cut to the box; the
/// resize itself, and the cases in which it aborts, are those of the same
/// options without a box.
pub proof fn law_crop_between_turn_and_resize(bytes: Seq<u8>, o: &ResizeOptions, uncropped: &ResizeOptions)
    requires
        uncropped.width == o.width,
        uncropped.height == o.height,
        uncropped.fit == o.fit,
        uncropped.bg == o.bg,
        uncropped.pattern_data == o.pattern_data,
        uncropped.crop is None,
    ensures
        prepared_view(bytes, uncropped) == upright_view(bytes),
        prepared_view(bytes, o) == (match upright_view(bytes) {
            Some(v) => Some(cropped_view(v, o.crop)),
            None => None,
        }),
        forall|v: PictureView| #[trigger] resize_step(v, o) == resize_step(v, uncropped),
        forall|v: PictureView| #[trigger] resize_failure(v, o) == resize_failure(v, uncropped),
{
}

/// Law: a crop box whose clamped rectangle has pixels cuts the upright
/// image to that rectangle, in either unit; a box without pixels leaves the
/// image whole.
pub proof fn law_crop_cuts_to_rectangle(v: PictureView, b: CropBox, bytes: Seq<u8>, o: &ResizeOptions)
    ensures
        crop_rect(b, v.width, v.height) matches Some(r) ==> cropped_view(v, Some(b))
            == picture_view(r.w, r.h, ImageTerm::Crop(Box::new(v.term), r.x, r.y, r.w, r.h)),
        crop_rect(b, v.width, v.height) is None ==> cropped_view(v, Some(b)) == v,
        cropped_view(v, None) == v,
        o.crop == Some(b) && upright_view(bytes) == Some(v) ==> (crop_rect(b, v.width, v.height) matches Some(r)
            ==> prepared_view(bytes, o)
            == Some(picture_view(r.w, r.h, ImageTerm::Crop(Box::new(v.term), r.x, r.y, r.w, r.h)))),
{
}

/// Law: the image is made upright by the EXIF `Orientation` tag of its
/// bytes: 2 mirrors it, 3 turns it half way, 4 flips it top to bottom, 5
/// flips it and turns it a quarter clockwise, 6 turns it a quarter
/// clockwise, 7 flips it and turns it three quarters, 8 turns it three
/// quarters; without a tag, or with 1 or another value, it stays as decoded.
pub proof fn law_upright_follows_exif(bytes: Seq<u8>, w: u32, h: u32, px: Seq<u8>)
    requires
        decoded_rgba8(bytes) == Some((w, h, px)),
    ensures
        ({
            let t = ImageTerm::Decoded(bytes);
            let tag = exif_orientation(bytes);
            &&& tag == Some(2u32) ==> upright_view(bytes) == Some(picture_view(w, h, ImageTerm::FlipH(Box::new(t))))
            &&& tag == Some(3u32) ==> upright_view(bytes) == Some(picture_view(w, h, ImageTerm::Rotate180(Box::new(t))))
            &&& tag == Some(4u32) ==> upright_view(bytes) == Some(picture_view(w, h, ImageTerm::FlipV(Box::new(t))))
            &&& tag == Some(5u32) ==> upright_view(bytes) == Some(picture_view(h, w,
                ImageTerm::Rotate90(Box::new(ImageTerm::FlipV(Box::new(t))))))
            &&& tag == Some(6u32) ==> upright_view(bytes) == Some(picture_view(h, w, ImageTerm::Rotate90(Box::new(t))))
            &&& tag == Some(7u32) ==> upright_view(bytes) == Some(picture_view(h, w,
                ImageTerm::Rotate270(Box::new(ImageTerm::FlipV(Box::new(t))))))
            &&& tag == Some(8u32) ==> upright_view(bytes) == Some(picture_view(h, w, ImageTerm::Rotate270(Box::new(t))))
            &&& (tag is None || tag.unwrap() < 2 || tag.unwrap() > 8)
                ==> upright_view(bytes) == Some(picture_view(w, h, t))
        }),
{
}

/// Cuts the image to the crop box, when one is given and covers pixels.
pub fn apply_crop(img: Picture, c: Option<CropBox>) -> (r: Picture)
    ensures
        r@ == cropped_view(img@, c),
{
    match c {
        Some(b) => match clamp_crop_rect(&b, img.width(), img.height()) {
            Some(rect) => crop(&img, rect.x, rect.y, rect.w, rect.h),
            None => img,
        },
        None => img,
    }
}

/// Decodes the image and turns it upright by its EXIF orientation.
pub fn decode_oriented(bytes: &[u8]) -> (r: Result<Picture, ProcessError>)
    ensures
        match upright_view(bytes@) {
            Some(v) => r matches Ok(p) && p@ == v,
            None => r matches Err(ProcessError::Decode(t)) && t@ == decode_error_text(bytes@),
        },
{
    let orientation = match read_orientation(bytes) {
        Some(o) => o,
        None => 1,
    };
    let img = match load_picture(bytes) {
        Ok(p) => p,
        Err(e) => return Err(ProcessError::Decode(e)),
    };
    Ok(apply_orientation(img, orientation))
}

/// Finds the case, if any, in which resizing `img` as `options` ask would
/// abort.
pub fn resize_failure_of(img: &Picture, options: &ResizeOptions) -> (r: Option<ProcessError>)
    ensures
        r == resize_failure(img@, options),
{
    if !(options.width > 0 || options.height > 0) {
        return None;
    }
    let w = img.width();
    let h = img.height();
    let tw = if options.width > 0 { options.width } else { w };
    let th = if options.height > 0 { options.height } else { h };
    match options.fit {
        Some(ResizeFit::Fill) => None,
        Some(ResizeFit::Cover) => {
            let defined = (w >= 1 && h >= 1) || (w == 0 && h == 0 && (tw <= 1 || th <= 1))
                || (w == 0 && h >= 1 && tw == 0) || (w >= 1 && h == 0 && th == 0);
            if defined { None } else { Some(ProcessError::EmptyImage) }
        },
        Some(ResizeFit::Contain) => {
            if !(tw == w && th == h) && (tw == 0 || th == 0) {
                return Some(ProcessError::EmptyImage);
            }
            proof {
                assert((tw as int) * (th as int) <= 0xffff_ffff * 0xffff_ffff) by (nonlinear_arith)
                    requires tw <= 0xffff_ffff, th <= 0xffff_ffff;
                assert(0 <= (tw as int) * (th as int)) by (nonlinear_arith);
            }
            let area: u64 = (tw as u64) * (th as u64);
            let fits_len = area <= (usize::MAX / 4) as u64;
            let pattern = match pattern_slice(options) {
                Some(data) => match load_picture(data) {
                    Ok(p) => Some((p.width(), p.height())),
                    Err(_) => None,
                },
                None => None,
            };
            match pattern {
                Some((pw, ph)) => {
                    if !fits_len {
                        Some(ProcessError::CanvasTooLarge)
                    } else if tw >= 1 && th >= 1 && (pw == 0 || ph == 0) {
                        Some(ProcessError::EmptyPattern)
                    } else {
                        None
                    }
                },
                None => {
                    if !fits_len {
                        Some(ProcessError::CanvasTooLarge)
                    } else {
                        None
                    }
                },
            }
        },
        None => None,
    }
}

/// Decodes the image, makes it upright, crops it and resizes it as
/// `options` ask. Where the work would abort, it says why instead.
pub fn process_image_bytes(bytes: &[u8], options: &ResizeOptions) -> (r: Result<Progress, ProcessError>)
    ensures
        match prepared_view(bytes@, options) {
            None => r matches Err(ProcessError::Decode(t)) && t@ == decode_error_text(bytes@),
            Some(v) => match resize_failure(v, options) {
                Some(e) => r matches Err(x) && x == e,
                None => r matches Ok(p) && step_of(&p) == resize_step(v, options)
                    && resize_guarantees(v, options),
            },
        },
{
    let img = decode_oriented(bytes)?;
    let img = apply_crop(img, options.crop);
    match resize_failure_of(&img, options) {
        Some(e) => Err(e),
        None => Ok(resize_picture(img, options)),
    }
}

/// Resizes into `width` x `height` keeping the aspect ratio; this ends the
/// steps [`Progress::ScaleWidthTo`] and [`Progress::ScaleHeightTo`] once the
/// other side is known.
pub fn finish_scaled(img: Picture, width: u32, height: u32) -> (r: Picture)
    ensures
        r@ == fitted_view(img@, width, height),
        fit_keeps_aspect(img@, width, height),
{
    resize_fit(&img, width, height)
}

} // verus!
