//! The output format: chosen by the `ext` parameter, else by an exact
//! `Accept` header, else AVIF.
use vstd::prelude::*;
use vstd::string::StringSliceAdditionalSpecFns;
use crate::text::{ascii_lower, bytes_equal, eq_ignore_ascii_case, matches_ignore_ascii_case};

verus! {

#[derive(Debug, Clone, Copy, PartialEq, Eq, Structural)]
pub enum OutputFormat {
    Avif,
    Jpeg,
    Png,
}

pub open spec fn word_avif() -> Seq<u8> { seq![97u8, 118, 105, 102] }
pub open spec fn word_jpg() -> Seq<u8> { seq![106u8, 112, 103] }
pub open spec fn word_jpeg() -> Seq<u8> { seq![106u8, 112, 101, 103] }
pub open spec fn word_png() -> Seq<u8> { seq![112u8, 110, 103] }

/// `image/` followed by `tail`.
pub open spec fn media_type(tail: Seq<u8>) -> Seq<u8> {
    seq![105u8, 109, 97, 103, 101, 47] + tail
}

/// The format an `ext` value names, in any letter case.
pub open spec fn ext_format(s: Seq<u8>) -> Option<OutputFormat> {
    if eq_ignore_ascii_case(s, word_avif()) {
        Some(OutputFormat::Avif)
    } else if eq_ignore_ascii_case(s, word_jpg()) || eq_ignore_ascii_case(s, word_jpeg()) {
        Some(OutputFormat::Jpeg)
    } else if eq_ignore_ascii_case(s, word_png()) {
        Some(OutputFormat::Png)
    } else {
        None
    }
}

/// The format an `Accept` header asks for when it is exactly one of the
/// three media types; AVIF otherwise.
pub open spec fn accept_format(s: Option<Seq<u8>>) -> OutputFormat {
    match s {
        Some(a) => if a == media_type(word_avif()) {
            OutputFormat::Avif
        } else if a == media_type(word_jpeg()) {
            OutputFormat::Jpeg
        } else if a == media_type(word_png()) {
            OutputFormat::Png
        } else {
            OutputFormat::Avif
        },
        None => OutputFormat::Avif,
    }
}

/// The format asked for: `ext` when given (an unknown one is refused), else
/// the `Accept` header.
pub open spec fn requested_format(ext: Option<Seq<u8>>, accept: Option<Seq<u8>>) -> Option<OutputFormat> {
    match ext {
        Some(e) => ext_format(e),
        None => Some(accept_format(accept)),
    }
}

pub open spec fn str_bytes(s: Option<&str>) -> Option<Seq<u8>> {
    match s {
        Some(t) => Some(t.spec_bytes()),
        None => None,
    }
}

fn media(tail: &[u8]) -> (r: Vec<u8>)
    ensures
        r@ == media_type(tail@),
{
    let mut v: Vec<u8> = vec![105, 109, 97, 103, 101, 47];
    let mut i: usize = 0;
    while i < tail.len()
        invariant
            0 <= i <= tail@.len(),
            v@ == seq![105u8, 109, 97, 103, 101, 47] + tail@.take(i as int),
        decreases tail@.len() - i,
    {
        v.push(tail[i]);
        i = i + 1;
        assert(v@ =~= seq![105u8, 109, 97, 103, 101, 47] + tail@.take(i as int));
    }
    assert(tail@.take(tail@.len() as int) =~= tail@);
    v
}

/// Chooses the output format; `None` when `ext` names no supported format.
pub fn select_output_format(ext: Option<&str>, accept: Option<&str>) -> (r: Option<OutputFormat>)
    ensures
        r == requested_format(str_bytes(ext), str_bytes(accept)),
{
    let avif: [u8; 4] = [97, 118, 105, 102];
    let jpg: [u8; 3] = [106, 112, 103];
    let jpeg: [u8; 4] = [106, 112, 101, 103];
    let png: [u8; 3] = [112, 110, 103];
    assert(avif@ =~= word_avif());
    assert(jpg@ =~= word_jpg());
    assert(jpeg@ =~= word_jpeg());
    assert(png@ =~= word_png());
    match ext {
        Some(e) => {
            let b = e.as_bytes();
            if matches_ignore_ascii_case(b, avif.as_slice()) {
                Some(OutputFormat::Avif)
            } else if matches_ignore_ascii_case(b, jpg.as_slice()) || matches_ignore_ascii_case(b, jpeg.as_slice()) {
                Some(OutputFormat::Jpeg)
            } else if matches_ignore_ascii_case(b, png.as_slice()) {
                Some(OutputFormat::Png)
            } else {
                None
            }
        },
        None => match accept {
            Some(a) => {
                let b = a.as_bytes();
                if bytes_equal(b, media(avif.as_slice()).as_slice()) {
                    Some(OutputFormat::Avif)
                } else if bytes_equal(b, media(jpeg.as_slice()).as_slice()) {
                    Some(OutputFormat::Jpeg)
                } else if bytes_equal(b, media(png.as_slice()).as_slice()) {
                    Some(OutputFormat::Png)
                } else {
                    Some(OutputFormat::Avif)
                }
            },
            None => Some(OutputFormat::Avif),
        },
    }
}

/// The format the image is encoded in: JPEG keeps no alpha, so a JPEG
/// request for an image with transparent pixels and no `bg` colour gets PNG.
pub open spec fn encoding_format(requested: OutputFormat, transparent: bool, has_bg: bool) -> OutputFormat {
    if requested == OutputFormat::Jpeg && transparent && !has_bg {
        OutputFormat::Png
    } else {
        requested
    }
}

pub fn choose_encoding(requested: OutputFormat, transparent: bool, has_bg: bool) -> (r: OutputFormat)
    ensures
        r == encoding_format(requested, transparent, has_bg),
{
    match requested {
        OutputFormat::Jpeg => if transparent && !has_bg { OutputFormat::Png } else { OutputFormat::Jpeg },
        other => other,
    }
}

/// Whether some pixel of RGBA8 bytes is not fully opaque.
pub open spec fn has_transparent_pixel(rgba: Seq<u8>) -> bool {
    exists|p: int| 0 <= p < rgba.len() / 4 && #[trigger] rgba[4 * p + 3] < 255
}

/// Scans RGBA8 bytes for a pixel that is not fully opaque.
pub fn any_transparent(rgba: &[u8]) -> (r: bool)
    ensures
        r == has_transparent_pixel(rgba@),
{
    let len = rgba.len();
    let n = len / 4;
    let mut p: usize = 0;
    while p < n
        invariant
            len == rgba@.len(),
            n == len / 4,
            0 <= p <= n,
            forall|q: int| 0 <= q < p ==> #[trigger] rgba@[4 * q + 3] == 255,
        decreases n - p,
    {
        if rgba[4 * p + 3] < 255 {
            return true;
        }
        p = p + 1;
    }
    false
}

/// Law: a given `ext` decides alone; the `Accept` header only counts without
/// one, and an absent or unknown header means AVIF.
pub proof fn law_ext_overrides_accept(ext: Seq<u8>, a1: Option<Seq<u8>>, a2: Option<Seq<u8>>)
    ensures
        requested_format(Some(ext), a1) == requested_format(Some(ext), a2),
        requested_format(None, None) == Some(OutputFormat::Avif),
{
}

/// Law: without `ext`, an `Accept` header of exactly `image/avif`,
/// `image/jpeg` or `image/png` picks that format; any other header, or
/// none, picks AVIF.
pub proof fn law_accept_picks_format(accept: Option<Seq<u8>>)
    ensures
        ({
            let avif = seq![105u8, 109, 97, 103, 101, 47, 97, 118, 105, 102];
            let jpeg = seq![105u8, 109, 97, 103, 101, 47, 106, 112, 101, 103];
            let png = seq![105u8, 109, 97, 103, 101, 47, 112, 110, 103];
            &&& requested_format(None, accept) == Some(OutputFormat::Jpeg) <==> accept == Some(jpeg)
            &&& requested_format(None, accept) == Some(OutputFormat::Png) <==> accept == Some(png)
            &&& requested_format(None, accept) == Some(OutputFormat::Avif)
                <==> (accept != Some(jpeg) && accept != Some(png))
            &&& accept == Some(avif) ==> requested_format(None, accept) == Some(OutputFormat::Avif)
        }),
{
    assert(media_type(word_avif()) =~= seq![105u8, 109, 97, 103, 101, 47, 97, 118, 105, 102]);
    assert(media_type(word_jpeg()) =~= seq![105u8, 109, 97, 103, 101, 47, 106, 112, 101, 103]);
    assert(media_type(word_png()) =~= seq![105u8, 109, 97, 103, 101, 47, 112, 110, 103]);
}

/// Law: an `ext` of `avif`, `jpg`, `jpeg` or `png` picks that format,
/// whatever the `Accept` header.
pub proof fn law_ext_picks_format(accept: Option<Seq<u8>>)
    ensures
        requested_format(Some(seq![97u8, 118, 105, 102]), accept) == Some(OutputFormat::Avif),
        requested_format(Some(seq![106u8, 112, 103]), accept) == Some(OutputFormat::Jpeg),
        requested_format(Some(seq![106u8, 112, 101, 103]), accept) == Some(OutputFormat::Jpeg),
        requested_format(Some(seq![112u8, 110, 103]), accept) == Some(OutputFormat::Png),
{
    assert(word_avif() =~= seq![97u8, 118, 105, 102]);
    assert(word_jpg() =~= seq![106u8, 112, 103]);
    assert(word_jpeg() =~= seq![106u8, 112, 101, 103]);
    assert(word_png() =~= seq![112u8, 110, 103]);
    // each word differs from the earlier ones in its first letter
    assert(ascii_lower(word_jpeg()[0]) != word_avif()[0]);
    assert(ascii_lower(word_png()[0]) != word_jpg()[0]);
}

/// Law: only a JPEG request changes format, to PNG, and only for an image
/// with transparent pixels and no background colour.
pub proof fn law_png_fallback(f: OutputFormat, transparent: bool, has_bg: bool)
    ensures
        encoding_format(f, transparent, has_bg) != f ==> f == OutputFormat::Jpeg
            && encoding_format(f, transparent, has_bg) == OutputFormat::Png && transparent && !has_bg,
        !transparent || has_bg ==> encoding_format(f, transparent, has_bg) == f,
{
}

impl OutputFormat {
    /// The `Content-Type` of the encoded image.
    pub fn content_type(&self) -> (r: &'static str)
        ensures
            *self == OutputFormat::Avif ==> r@ == "image/avif"@,
            *self == OutputFormat::Jpeg ==> r@ == "image/jpeg"@,
            *self == OutputFormat::Png ==> r@ == "image/png"@,
    {
        match self {
            OutputFormat::Avif => "image/avif",
            OutputFormat::Jpeg => "image/jpeg",
            OutputFormat::Png => "image/png",
        }
    }
}

} // verus!
