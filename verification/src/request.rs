//! The `/convert` query: which parameters it reads and how.
use vstd::prelude::*;
use vstd::string::StringSliceAdditionalSpecFns;
use vstd::utf8::encode_utf8;
use crate::crop::{CropBox, CropUnit, CropValues, bbox_values, decimal_of, parse_bbox_values, parse_decimal};
use crate::fit::{ResizeFit, fit_named, law_fit_names};
use crate::format::{OutputFormat, requested_format, select_output_format};
use crate::text::bytes_equal;
use crate::text::{decimal_text, law_u32_text_round_trip, parse_u32, parsed_u32};

verus! {

/// The query parameters that the conversion reads, each as given, and the
/// request's `Accept` header.
#[derive(Debug, Clone)]
pub struct QueryParams {
    pub url: Option<String>,
    pub width: Option<String>,
    pub height: Option<String>,
    pub fit: Option<String>,
    pub bg: Option<String>,
    pub pattern: Option<String>,
    pub bbox: Option<String>,
    pub bbox_unit: Option<String>,
    pub bbox_x: Option<String>,
    pub bbox_y: Option<String>,
    pub bbox_w: Option<String>,
    pub bbox_h: Option<String>,
    pub ext: Option<String>,
    pub accept: Option<String>,
}

/// A conversion request read from the query.
#[derive(Debug, Clone)]
pub struct ConvertRequest {
    /// Where to fetch the image.
    pub url: String,
    pub width: u32,
    pub height: u32,
    pub fit: Option<ResizeFit>,
    pub bg: Option<String>,
    /// Where to fetch the padding pattern.
    pub pattern_url: Option<String>,
    pub crop: Option<CropBox>,
    pub format: OutputFormat,
}

/// Why a query is refused.
#[derive(Debug, Clone, Copy, PartialEq, Eq, Structural)]
pub enum RequestError {
    /// There is no `url` parameter.
    MissingUrl,
    /// `width` is given but is not a `u32` in decimal.
    InvalidWidth,
    /// `height` is given but is not a `u32` in decimal.
    InvalidHeight,
    /// `fit` is given but names none of `contain`, `cover`, `fill`.
    InvalidFit,
    /// `bbox` is not four numbers, or `bbox_x`, `bbox_y`, `bbox_w` and
    /// `bbox_h` are given in part or not as numbers.
    InvalidBbox,
    /// `bbox_unit` is neither `px` nor `norm`.
    InvalidBboxUnit,
    /// `ext` names no supported format.
    UnsupportedExt,
}

impl RequestError {
    /// The text of the refusal.
    pub fn message(&self) -> (r: &'static str)
        ensures
            *self == RequestError::MissingUrl ==> r@ == "Image URL is required"@,
            *self == RequestError::InvalidWidth ==> r@ == "Invalid width"@,
            *self == RequestError::InvalidHeight ==> r@ == "Invalid height"@,
            *self == RequestError::InvalidFit ==> r@ == "Invalid fit"@,
            *self == RequestError::InvalidBbox ==> r@ == "Invalid bbox"@,
            *self == RequestError::InvalidBboxUnit ==> r@ == "Invalid bbox_unit"@,
            *self == RequestError::UnsupportedExt ==> r@ == "Unsupported ext"@,
    {
        match self {
            RequestError::MissingUrl => "Image URL is required",
            RequestError::InvalidWidth => "Invalid width",
            RequestError::InvalidHeight => "Invalid height",
            RequestError::InvalidFit => "Invalid fit",
            RequestError::InvalidBbox => "Invalid bbox",
            RequestError::InvalidBboxUnit => "Invalid bbox_unit",
            RequestError::UnsupportedExt => "Unsupported ext",
        }
    }
}

pub open spec fn text_view(v: Option<String>) -> Option<Seq<char>> {
    match v {
        Some(s) => Some(s@),
        None => None,
    }
}

/// A size parameter: its `u32` value, 0 when it is missing; `None` when it
/// is given but is not a `u32`.
pub open spec fn size_param(v: Option<String>) -> Option<u32> {
    match v {
        Some(s) => parsed_u32(encode_utf8(s@)),
        None => Some(0),
    }
}

/// The `fit` parameter: the mode it names, none when it is missing; `Err`
/// when it is given but names no mode.
pub open spec fn fit_param(v: Option<String>) -> Result<Option<ResizeFit>, ()> {
    match v {
        Some(s) => match fit_named(encode_utf8(s@)) {
            Some(f) => Ok(Some(f)),
            None => Err(()),
        },
        None => Ok(None),
    }
}

pub open spec fn word_px() -> Seq<u8> { seq![112u8, 120] }
pub open spec fn word_norm() -> Seq<u8> { seq![110u8, 111, 114, 109] }

/// The `bbox_unit` parameter: `px` when missing; `None` when it names no
/// unit.
pub open spec fn unit_param(v: Option<String>) -> Option<CropUnit> {
    match v {
        None => Some(CropUnit::Px),
        Some(s) => if encode_utf8(s@) == word_px() {
            Some(CropUnit::Px)
        } else if encode_utf8(s@) == word_norm() {
            Some(CropUnit::Norm)
        } else {
            None
        },
    }
}

pub open spec fn bytes_param(v: Option<String>) -> Option<Seq<u8>> {
    match v {
        Some(s) => Some(encode_utf8(s@)),
        None => None,
    }
}

fn as_text(v: &Option<String>) -> (r: Option<&str>)
    ensures
        crate::format::str_bytes(r) == bytes_param(*v),
{
    match v {
        Some(s) => Some(s.as_str()),
        None => None,
    }
}

/// A number parameter, if it is given and is a number.
pub open spec fn number_param(v: Option<String>) -> Option<crate::crop::Decimal> {
    match v {
        Some(s) => decimal_of(encode_utf8(s@)),
        None => None,
    }
}

/// The crop numbers the query gives: from `bbox` when it is there, else
/// from all four of `bbox_x`, `bbox_y`, `bbox_w`, `bbox_h`; none when none
/// of them is there; `Err` when they are malformed or given in part.
pub open spec fn bbox_param(q: &QueryParams) -> Result<Option<CropValues>, ()> {
    match q.bbox {
        Some(t) => match bbox_values(encode_utf8(t@)) {
            Some(v) => Ok(Some(v)),
            None => Err(()),
        },
        None => if q.bbox_x is None && q.bbox_y is None && q.bbox_w is None && q.bbox_h is None {
            Ok(None)
        } else {
            match (number_param(q.bbox_x), number_param(q.bbox_y), number_param(q.bbox_w), number_param(q.bbox_h)) {
                (Some(x), Some(y), Some(w), Some(h)) => Ok(Some(CropValues { x, y, w, h })),
                _ => Err(()),
            }
        },
    }
}

fn read_number(v: &Option<String>) -> (r: Option<crate::crop::Decimal>)
    ensures
        r == number_param(*v),
{
    match v {
        Some(s) => {
            let b = s.as_str().as_bytes();
            assert(b@.subrange(0, b@.len() as int) =~= b@);
            parse_decimal(b, 0, b.len())
        },
        None => None,
    }
}

fn read_unit(v: &Option<String>) -> (r: Option<CropUnit>)
    ensures
        r == unit_param(*v),
{
    match v {
        None => Some(CropUnit::Px),
        Some(s) => {
            let px: [u8; 2] = [112, 120];
            let norm: [u8; 4] = [110, 111, 114, 109];
            assert(px@ =~= word_px());
            assert(norm@ =~= word_norm());
            let b = s.as_str().as_bytes();
            if bytes_equal(b, px.as_slice()) {
                Some(CropUnit::Px)
            } else if bytes_equal(b, norm.as_slice()) {
                Some(CropUnit::Norm)
            } else {
                None
            }
        },
    }
}

fn read_bbox(q: &QueryParams) -> (r: Result<Option<CropValues>, ()>)
    ensures
        r == bbox_param(q),
{
    match &q.bbox {
        Some(t) => match parse_bbox_values(t.as_str().as_bytes()) {
            Some(v) => Ok(Some(v)),
            None => Err(()),
        },
        None => {
            if q.bbox_x.is_none() && q.bbox_y.is_none() && q.bbox_w.is_none() && q.bbox_h.is_none() {
                return Ok(None);
            }
            match (read_number(&q.bbox_x), read_number(&q.bbox_y), read_number(&q.bbox_w), read_number(&q.bbox_h)) {
                (Some(x), Some(y), Some(w), Some(h)) => Ok(Some(CropValues { x, y, w, h })),
                _ => Err(()),
            }
        },
    }
}

fn read_size(v: &Option<String>) -> (r: Option<u32>)
    ensures
        r == size_param(*v),
{
    match v {
        Some(s) => parse_u32(s.as_str().as_bytes()),
        None => Some(0),
    }
}

fn read_fit(v: &Option<String>) -> (r: Result<Option<ResizeFit>, ()>)
    ensures
        r == fit_param(*v),
{
    match v {
        Some(s) => match ResizeFit::from_str(s.as_str()) {
            Ok(f) => Ok(Some(f)),
            Err(_) => Err(()),
        },
        None => Ok(None),
    }
}

fn copy_text(v: &Option<String>) -> (r: Option<String>)
    ensures
        text_view(r) == text_view(*v),
{
    match v {
        Some(s) => Some(s.clone()),
        None => None,
    }
}

/// Why the query is refused, if it is: checked in this order, a missing
/// `url`, a malformed `width` or `height`, an unknown `fit`, a malformed crop
/// box, an unknown crop unit, an unknown `ext`.
pub open spec fn query_error(q: &QueryParams) -> Option<RequestError> {
    if q.url is None {
        Some(RequestError::MissingUrl)
    } else if size_param(q.width) is None {
        Some(RequestError::InvalidWidth)
    } else if size_param(q.height) is None {
        Some(RequestError::InvalidHeight)
    } else if fit_param(q.fit) is Err {
        Some(RequestError::InvalidFit)
    } else if bbox_param(q) is Err {
        Some(RequestError::InvalidBbox)
    } else if unit_param(q.bbox_unit) is None {
        Some(RequestError::InvalidBboxUnit)
    } else if requested_format(bytes_param(q.ext), bytes_param(q.accept)) is None {
        Some(RequestError::UnsupportedExt)
    } else {
        None
    }
}

/// The crop box the query asks for.
pub open spec fn crop_param(q: &QueryParams) -> Option<CropBox> {
    match (bbox_param(q), unit_param(q.bbox_unit)) {
        (Ok(Some(values)), Some(unit)) => Some(CropBox { values, unit }),
        _ => None,
    }
}

/// Law: a size written as the decimal digits of `n` reads as `n`, a missing
/// one as 0; `contain`, `cover` and `fill` read as those modes, a missing fit
/// as none; and with a `url`, a malformed `width` is refused as such.
pub proof fn law_sizes_and_fit(w: String, f: String, n: u32, q: &QueryParams)
    ensures
        size_param(None) == Some(0u32),
        encode_utf8(w@) == decimal_text(n as nat) ==> size_param(Some(w)) == Some(n),
        fit_param(None) == Ok::<Option<ResizeFit>, ()>(None),
        encode_utf8(f@) == seq![99u8, 111, 110, 116, 97, 105, 110]
            ==> fit_param(Some(f)) == Ok::<Option<ResizeFit>, ()>(Some(ResizeFit::Contain)),
        encode_utf8(f@) == seq![99u8, 111, 118, 101, 114]
            ==> fit_param(Some(f)) == Ok::<Option<ResizeFit>, ()>(Some(ResizeFit::Cover)),
        encode_utf8(f@) == seq![102u8, 105, 108, 108]
            ==> fit_param(Some(f)) == Ok::<Option<ResizeFit>, ()>(Some(ResizeFit::Fill)),
        q.url is Some && size_param(q.width) is None ==> query_error(q) == Some(RequestError::InvalidWidth),
        q.url is Some && size_param(q.width) is Some && size_param(q.height) is None
            ==> query_error(q) == Some(RequestError::InvalidHeight),
{
    law_u32_text_round_trip(n);
    law_fit_names();
    assert(crate::fit::word_contain() =~= seq![99u8, 111, 110, 116, 97, 105, 110]);
    assert(crate::fit::word_cover() =~= seq![99u8, 111, 118, 101, 114]);
    assert(crate::fit::word_fill() =~= seq![102u8, 105, 108, 108]);
}

/// Reads the query: `url` is required; `width` and `height` are unsigned
/// integers (0 when missing, refused when malformed); `fit` names a mode in
/// any letter case (refused when it names none); `bg` and `pattern` are
/// taken as given; the crop box comes
/// from `bbox` (or `bbox_x`, `bbox_y`, `bbox_w`, `bbox_h`) in the unit
/// `bbox_unit`, and is refused when malformed; the output format comes from
/// `ext`, else from the `Accept` header.
pub fn parse_query(q: &QueryParams) -> (r: Result<ConvertRequest, RequestError>)
    ensures
        match query_error(q) {
            Some(e) => r == Err::<ConvertRequest, RequestError>(e),
            None => r matches Ok(c) && {
                &&& Some(c.url@) == text_view(q.url)
                &&& Some(c.width) == size_param(q.width)
                &&& Some(c.height) == size_param(q.height)
                &&& Ok::<Option<ResizeFit>, ()>(c.fit) == fit_param(q.fit)
                &&& text_view(c.bg) == text_view(q.bg)
                &&& text_view(c.pattern_url) == text_view(q.pattern)
                &&& c.crop == crop_param(q)
                &&& Some(c.format) == requested_format(bytes_param(q.ext), bytes_param(q.accept))
            },
        },
{
    let url = match &q.url {
        Some(u) => u.clone(),
        None => return Err(RequestError::MissingUrl),
    };
    let width = match read_size(&q.width) {
        Some(n) => n,
        None => return Err(RequestError::InvalidWidth),
    };
    let height = match read_size(&q.height) {
        Some(n) => n,
        None => return Err(RequestError::InvalidHeight),
    };
    let fit = match read_fit(&q.fit) {
        Ok(f) => f,
        Err(_) => return Err(RequestError::InvalidFit),
    };
    let values = match read_bbox(q) {
        Ok(v) => v,
        Err(_) => return Err(RequestError::InvalidBbox),
    };
    let unit = match read_unit(&q.bbox_unit) {
        Some(u) => u,
        None => return Err(RequestError::InvalidBboxUnit),
    };
    let format = match select_output_format(as_text(&q.ext), as_text(&q.accept)) {
        Some(f) => f,
        None => return Err(RequestError::UnsupportedExt),
    };
    let crop = match values {
        Some(values) => Some(CropBox { values, unit }),
        None => None,
    };
    Ok(ConvertRequest {
        url,
        width,
        height,
        fit,
        bg: copy_text(&q.bg),
        pattern_url: copy_text(&q.pattern),
        crop,
        format,
    })
}

} // verus!
