//! The crop box (`bbox`) applied after the image is made upright.
//!
//! Each of the four values is a decimal number with an optional sign and at
//! least one digit, such as `100`, `-5`, `0.25` or `.3333333333`; spaces
//! around a value are ignored. A value is read to nine decimal places
//! (digits after the ninth are dropped), and a size of ten billion or more
//! counts as ten billion, well beyond any image. With the `px` unit a value
//! counts pixels, with `norm` it is a fraction of the upright image's width
//! (x, w) or height (y, h).
//! The box's edges are rounded to whole pixels, to the nearest with halves
//! away from zero, then clamped to the image; a box left without area is
//! ignored.
use vstd::prelude::*;
use vstd::arithmetic::div_mod::lemma_fundamental_div_mod_converse;
use crate::text::{
    all_decimal, decimal_digit, decimal_text, decimal_value, find_byte, first_index_of,
    lemma_decimal_text, lemma_first_index_of, lemma_leading_spaces, lemma_trailing_spaces,
    trim_range, trim_spaces,
};

verus! {

/// 10 to the power `n`.
pub open spec fn pow10(n: nat) -> nat
    decreases n,
{
    if n == 0 { 1 } else { 10 * pow10((n - 1) as nat) }
}

/// A decimal number, kept as its size in billionths (at most
/// [`MAX_NANOS`]), negative when `negative`.
#[derive(Debug, Clone, Copy, PartialEq, Eq, Structural)]
pub struct Decimal {
    pub negative: bool,
    pub nanos: u64,
}

/// The text without a leading sign.
pub open spec fn unsigned_part(s: Seq<u8>) -> Seq<u8> {
    if s.len() > 0 && (s[0] == 45 || s[0] == 43) { s.drop_first() } else { s }
}

/// The digits before the decimal point.
pub open spec fn integer_digits(body: Seq<u8>) -> Seq<u8> {
    body.take(first_index_of(body, 46) as int)
}

/// The digits after the decimal point.
pub open spec fn fraction_digits(body: Seq<u8>) -> Seq<u8> {
    let d = first_index_of(body, 46);
    if d < body.len() { body.skip(d + 1 as int) } else { Seq::empty() }
}

/// The largest size a value counts as, in billionths: ten billion.
pub const MAX_NANOS: u64 = 10_000_000_000_000_000_000;

/// The largest whole part worth reading: any larger one reaches the cap.
pub const MAX_WHOLE: u64 = 10_000_000_000;

/// The digits of a fraction that count: the first nine.
pub open spec fn nine_places(frac: Seq<u8>) -> Seq<u8> {
    if frac.len() <= 9 { frac } else { frac.take(9) }
}

/// The size of `whole.frac` in billionths, capped at [`MAX_NANOS`].
pub open spec fn decimal_nanos(whole: Seq<u8>, frac: Seq<u8>) -> nat {
    let f = nine_places(frac);
    let n = decimal_value(whole) * 1_000_000_000 + decimal_value(f) * pow10((9 - f.len()) as nat);
    if n < MAX_NANOS { n } else { MAX_NANOS as nat }
}

/// The decimal number that `t` writes, if it writes one.
pub open spec fn decimal_of(t: Seq<u8>) -> Option<Decimal> {
    let s = trim_spaces(t);
    let body = unsigned_part(s);
    let whole = integer_digits(body);
    let frac = fraction_digits(body);
    if all_decimal(whole) && all_decimal(frac) && whole.len() + frac.len() >= 1 {
        Some(Decimal { negative: s.len() > 0 && s[0] == 45, nanos: decimal_nanos(whole, frac) as u64 })
    } else {
        None
    }
}

proof fn lemma_decimal_value_bound(s: Seq<u8>)
    requires
        all_decimal(s),
    ensures
        decimal_value(s) < pow10(s.len()),
    decreases s.len(),
{
    if s.len() > 0 {
        assert(all_decimal(s.drop_last())) by {
            assert forall|i: int| 0 <= i < s.drop_last().len() implies #[trigger] decimal_digit(s.drop_last()[i]) is Some by {
                assert(s.drop_last()[i] == s[i]);
            }
        }
        lemma_decimal_value_bound(s.drop_last());
        assert(decimal_digit(s.last()) is Some);
    }
}

proof fn lemma_pow10_nine(n: nat)
    requires
        n <= 9,
    ensures
        pow10(n) <= 1_000_000_000,
        n <= 8 ==> pow10(n) <= 100_000_000,
{
    reveal_with_fuel(pow10, 10);
}

/// The number that the digits `s[from..to]` spell, counted at most up to
/// [`MAX_WHOLE`]; `None` when a byte is no digit.
fn read_digits(s: &[u8], from: usize, to: usize) -> (r: Option<u64>)
    requires
        from <= to <= s@.len(),
    ensures
        ({
            let d = s@.subrange(from as int, to as int);
            if all_decimal(d) {
                r == Some(if decimal_value(d) < MAX_WHOLE { decimal_value(d) as u64 } else { MAX_WHOLE })
            } else {
                r is None
            }
        }),
{
    let mut v: u64 = 0;
    let mut i = from;
    assert(decimal_value(Seq::<u8>::empty()) == 0);
    while i < to
        invariant
            from <= i <= to <= s@.len(),
            all_decimal(s@.subrange(from as int, i as int)),
            v == (if decimal_value(s@.subrange(from as int, i as int)) < MAX_WHOLE {
                decimal_value(s@.subrange(from as int, i as int))
            } else {
                MAX_WHOLE as nat
            }),
        decreases to - i,
    {
        let ghost cur = s@.subrange(from as int, i as int);
        let ghost all = s@.subrange(from as int, to as int);
        let b = s[i];
        if b < 48 || b > 57 {
            assert(all[i - from] == b);
            assert(decimal_digit(all[i - from]) is None);
            return None;
        }
        let ghost next = s@.subrange(from as int, i + 1);
        assert(next.drop_last() =~= cur);
        assert(next.last() == b);
        assert forall|j: int| 0 <= j < next.len() implies #[trigger] decimal_digit(next[j]) is Some by {
            if j < cur.len() {
                assert(next[j] == cur[j]);
            }
        }
        let grown = v * 10 + (b - 48) as u64;
        v = if grown < MAX_WHOLE { grown } else { MAX_WHOLE };
        i = i + 1;
    }
    Some(v)
}

/// Reads the decimal number that `s[from..to]` writes.
#[verifier::rlimit(40)]
pub fn parse_decimal(s: &[u8], from: usize, to: usize) -> (r: Option<Decimal>)
    requires
        from <= to <= s@.len(),
    ensures
        r == decimal_of(s@.subrange(from as int, to as int)),
{
    let ghost t = s@.subrange(from as int, to as int);
    let (a, e) = trim_range(s, from, to);
    let ghost trimmed = trim_spaces(t);
    assert(trimmed =~= s@.subrange(a as int, e as int));
    let negative = a < e && s[a] == 45;
    let start = if a < e && (s[a] == 45 || s[a] == 43) { a + 1 } else { a };
    let ghost body = unsigned_part(trimmed);
    assert(body =~= s@.subrange(start as int, e as int));
    let dot = find_byte(s, start, e, 46);
    let ghost whole = integer_digits(body);
    let ghost frac = fraction_digits(body);
    assert(whole =~= s@.subrange(start as int, dot as int));
    let frac_from = if dot < e { dot + 1 } else { e };
    assert(frac =~= s@.subrange(frac_from as int, e as int));
    let whole_value = match read_digits(s, start, dot) {
        Some(v) => v,
        None => return None,
    };
    let places = if e - frac_from <= 9 { e - frac_from } else { 9 };
    let ghost counted = nine_places(frac);
    assert(counted =~= s@.subrange(frac_from as int, (frac_from + places) as int));
    let frac_value = read_digits(s, frac_from, frac_from + places);
    let rest = read_digits(s, frac_from + places, e);
    proof {
        let tail = s@.subrange((frac_from + places) as int, e as int);
        assert(all_decimal(frac) == (all_decimal(counted) && all_decimal(tail))) by {
            if all_decimal(counted) && all_decimal(tail) {
                assert forall|j: int| 0 <= j < frac.len() implies #[trigger] decimal_digit(frac[j]) is Some by {
                    if j < places {
                        assert(frac[j] == counted[j]);
                    } else {
                        assert(frac[j] == tail[j - places]);
                    }
                }
            }
            if all_decimal(frac) {
                assert forall|j: int| 0 <= j < counted.len() implies #[trigger] decimal_digit(counted[j]) is Some by {
                    assert(frac[j] == counted[j]);
                }
                assert forall|j: int| 0 <= j < tail.len() implies #[trigger] decimal_digit(tail[j]) is Some by {
                    assert(frac[j + places] == tail[j]);
                }
            }
        }
    }
    let f = match (frac_value, rest) {
        (Some(f), Some(_)) => f,
        _ => return None,
    };
    if (dot - start) + (e - frac_from) == 0 {
        return None;
    }
    proof {
        lemma_decimal_value_bound(counted);
        lemma_pow10_nine(counted.len());
    }
    let p = pow10_exec((9 - places) as u32);
    assert((f as int) * (p as int) <= 1_000_000_000 * 1_000_000_000) by (nonlinear_arith)
        requires f < 1_000_000_000, p <= 1_000_000_000;
    assert(0 <= (f as int) * (p as int)) by (nonlinear_arith);
    let n = whole_value * 1_000_000_000 + f * p;
    Some(Decimal { negative, nanos: if n < MAX_NANOS { n } else { MAX_NANOS } })
}

/// The four numbers of a `bbox`: left, top, width and height.
#[derive(Debug, Clone, Copy, PartialEq, Eq, Structural)]
pub struct CropValues {
    pub x: Decimal,
    pub y: Decimal,
    pub w: Decimal,
    pub h: Decimal,
}

/// The unit of the `bbox` numbers.
#[derive(Debug, Clone, Copy, PartialEq, Eq, Structural)]
pub enum CropUnit {
    /// Pixels of the upright image.
    Px,
    /// Fractions of the upright image's width and height.
    Norm,
}

/// A crop request.
#[derive(Debug, Clone, Copy, PartialEq, Eq, Structural)]
pub struct CropBox {
    pub values: CropValues,
    pub unit: CropUnit,
}

/// A rectangle of pixels inside an image.
#[derive(Debug, Clone, Copy, PartialEq, Eq, Structural)]
pub struct CropRect {
    pub x: u32,
    pub y: u32,
    pub w: u32,
    pub h: u32,
}

/// The four comma-separated fields of `s`, when it has exactly four.
pub open spec fn bbox_fields(s: Seq<u8>) -> Option<(Seq<u8>, Seq<u8>, Seq<u8>, Seq<u8>)> {
    let c1 = first_index_of(s, 44) as int;
    let r1 = s.skip(c1 + 1);
    let c2 = first_index_of(r1, 44) as int;
    let r2 = r1.skip(c2 + 1);
    let c3 = first_index_of(r2, 44) as int;
    let r3 = r2.skip(c3 + 1);
    if c1 < s.len() && c2 < r1.len() && c3 < r2.len() && first_index_of(r3, 44) == r3.len() {
        Some((s.take(c1), r1.take(c2), r2.take(c3), r3))
    } else {
        None
    }
}

/// The numbers of a `bbox` text `x,y,w,h`, when it holds four numbers.
pub open spec fn bbox_values(s: Seq<u8>) -> Option<CropValues> {
    match bbox_fields(s) {
        Some(f) => match (decimal_of(f.0), decimal_of(f.1), decimal_of(f.2), decimal_of(f.3)) {
            (Some(x), Some(y), Some(w), Some(h)) => Some(CropValues { x, y, w, h }),
            _ => None,
        },
        None => None,
    }
}

/// Reads `bbox` text `x,y,w,h`.
#[verifier::rlimit(40)]
pub fn parse_bbox_values(text: &[u8]) -> (r: Option<CropValues>)
    ensures
        r == bbox_values(text@),
{
    let n = text.len();
    let ghost s = text@;
    let c1 = find_byte(text, 0, n, 44);
    assert(s.subrange(0, n as int) =~= s);
    if c1 == n {
        return None;
    }
    let ghost r1 = s.skip(c1 + 1);
    assert(r1 =~= s.subrange(c1 + 1, n as int));
    let c2 = find_byte(text, c1 + 1, n, 44);
    if c2 == n {
        return None;
    }
    let ghost r2 = r1.skip(c2 - c1);
    assert(r2 =~= s.subrange(c2 + 1, n as int));
    let c3 = find_byte(text, c2 + 1, n, 44);
    if c3 == n {
        return None;
    }
    let ghost r3 = r2.skip(c3 - c2);
    assert(r3 =~= s.subrange(c3 + 1, n as int));
    let c4 = find_byte(text, c3 + 1, n, 44);
    if c4 < n {
        return None;
    }
    assert(s.take(c1 as int) =~= s.subrange(0, c1 as int));
    assert(r1.take(c2 - c1 - 1) =~= s.subrange(c1 + 1, c2 as int));
    assert(r2.take(c3 - c2 - 1) =~= s.subrange(c2 + 1, c3 as int));
    let x = parse_decimal(text, 0, c1);
    let y = parse_decimal(text, c1 + 1, c2);
    let w = parse_decimal(text, c2 + 1, c3);
    let h = parse_decimal(text, c3 + 1, n);
    match (x, y, w, h) {
        (Some(x), Some(y), Some(w), Some(h)) => Some(CropValues { x, y, w, h }),
        _ => None,
    }
}

/// A decimal times 10^9, as an integer.
pub open spec fn nano(d: Decimal) -> int {
    if d.negative { -(d.nanos as int) } else { d.nanos as int }
}

/// `n` / `d` rounded to the nearest integer, halves away from zero.
pub open spec fn round_div(n: int, d: int) -> int {
    if n >= 0 { (2 * n + d) / (2 * d) } else { -((-2 * n + d) / (2 * d)) }
}

/// An edge at `pos` (times 10^9) in units of `factor` pixels, rounded.
pub open spec fn edge(pos: int, factor: int) -> int {
    round_div(pos * factor, 1_000_000_000)
}

pub open spec fn clamp(v: int, hi: int) -> int {
    if v < 0 { 0 } else if v > hi { hi } else { v }
}

/// The pixels that the crop box covers in a `width` x `height` image: its
/// edges rounded and clamped to the image; none when no area is left.
pub open spec fn crop_rect(c: CropBox, width: u32, height: u32) -> Option<CropRect> {
    let fx: int = if c.unit == CropUnit::Norm { width as int } else { 1 };
    let fy: int = if c.unit == CropUnit::Norm { height as int } else { 1 };
    let left = clamp(edge(nano(c.values.x), fx), width as int);
    let right = clamp(edge(nano(c.values.x) + nano(c.values.w), fx), width as int);
    let top = clamp(edge(nano(c.values.y), fy), height as int);
    let bottom = clamp(edge(nano(c.values.y) + nano(c.values.h), fy), height as int);
    if left < right && top < bottom {
        Some(CropRect { x: left as u32, y: top as u32, w: (right - left) as u32, h: (bottom - top) as u32 })
    } else {
        None
    }
}

fn pow10_exec(n: u32) -> (r: u64)
    requires
        n <= 9,
    ensures
        r == pow10(n as nat),
        r <= 1_000_000_000,
{
    proof {
        reveal_with_fuel(pow10, 10);
    }
    let mut r: u64 = 1;
    let mut i: u32 = 0;
    while i < n
        invariant
            i <= n <= 9,
            r == pow10(i as nat),
            r <= pow10(i as nat),
        decreases n - i,
    {
        proof {
            lemma_pow10_nine(i as nat);
        }
        r = r * 10;
        i = i + 1;
    }
    proof {
        lemma_pow10_nine(n as nat);
    }
    r
}

fn nano_exec(d: Decimal) -> (r: i128)
    ensures
        r == nano(d),
        -0x1_0000_0000_0000_0000 < r < 0x1_0000_0000_0000_0000,
{
    if d.negative { -(d.nanos as i128) } else { d.nanos as i128 }
}

fn edge_exec(pos: i128, factor: u32, limit: u32) -> (r: u32)
    requires
        -0x2_0000_0000_0000_0000 < pos < 0x2_0000_0000_0000_0000,
    ensures
        r == clamp(edge(pos as int, factor as int), limit as int),
{
    assert(-0x2_0000_0000_0000_0000 * 0x1_0000_0000 <= (pos as int) * (factor as int) <= 0x2_0000_0000_0000_0000 * 0x1_0000_0000) by (nonlinear_arith)
        requires -0x2_0000_0000_0000_0000 < pos < 0x2_0000_0000_0000_0000, 0 <= factor < 0x1_0000_0000;
    let n = pos * (factor as i128);
    let d: i128 = 1_000_000_000;
    let e: i128 = if n >= 0 { (2 * n + d) / (2 * d) } else { -((d - 2 * n) / (2 * d)) };
    if e < 0 {
        0
    } else if e > limit as i128 {
        limit
    } else {
        e as u32
    }
}

/// Law: a crop keeps at least one pixel and stays inside the image.
pub proof fn law_crop_inside(c: CropBox, width: u32, height: u32)
    ensures
        crop_rect(c, width, height) matches Some(r) ==> {
            &&& r.w >= 1 && r.h >= 1
            &&& r.x + r.w <= width
            &&& r.y + r.h <= height
        },
{
}

/// Law: the normalised box `0,0,1,1` keeps the whole image.
pub proof fn law_whole_image(width: u32, height: u32)
    requires
        width >= 1,
        height >= 1,
    ensures
        crop_rect(
            CropBox {
                values: CropValues {
                    x: Decimal { negative: false, nanos: 0 },
                    y: Decimal { negative: false, nanos: 0 },
                    w: Decimal { negative: false, nanos: 1_000_000_000 },
                    h: Decimal { negative: false, nanos: 1_000_000_000 },
                },
                unit: CropUnit::Norm,
            },
            width,
            height,
        ) == Some(CropRect { x: 0, y: 0, w: width, h: height }),
{
    let g: int = 1_000_000_000;
    assert(2 * (g * width) + g == (width as int) * (2 * g) + g) by (nonlinear_arith);
    lemma_fundamental_div_mod_converse(2 * (g * width) + g, 2 * g, width as int, g);
    assert(2 * (g * height) + g == (height as int) * (2 * g) + g) by (nonlinear_arith);
    lemma_fundamental_div_mod_converse(2 * (g * height) + g, 2 * g, height as int, g);
    assert(2 * (0 * (width as int)) + g == 0 * (2 * g) + g);
    lemma_fundamental_div_mod_converse(g, 2 * g, 0, g);
}

/// The whole number `n` as a decimal.
pub open spec fn whole(n: u32) -> Decimal {
    Decimal { negative: false, nanos: (n * 1_000_000_000) as u64 }
}

proof fn lemma_whole_edge(n: u32)
    ensures
        edge(n * 1_000_000_000, 1) == n,
{
    let g: int = 1_000_000_000;
    assert(2 * ((n * g) * 1) + g == (n as int) * (2 * g) + g) by (nonlinear_arith);
    lemma_fundamental_div_mod_converse(2 * ((n * g) * 1) + g, 2 * g, n as int, g);
}

/// Law: a pixel box of whole numbers that lies inside the image, with at
/// least one pixel, is cut exactly as given.
pub proof fn law_pixel_box_exact(x: u32, y: u32, w: u32, h: u32, width: u32, height: u32)
    requires
        w >= 1,
        h >= 1,
        x + w <= width,
        y + h <= height,
    ensures
        crop_rect(
            CropBox { values: CropValues { x: whole(x), y: whole(y), w: whole(w), h: whole(h) }, unit: CropUnit::Px },
            width,
            height,
        ) == Some(CropRect { x, y, w, h }),
{
    lemma_whole_edge(x);
    lemma_whole_edge(y);
    lemma_whole_edge((x + w) as u32);
    lemma_whole_edge((y + h) as u32);
}

proof fn lemma_plain_text(s: Seq<u8>)
    requires
        s.len() >= 1,
        s[0] != 32,
        s.last() != 32,
    ensures
        trim_spaces(s) == s,
{
    lemma_leading_spaces(s, 0);
    lemma_trailing_spaces(s, s.len() as int);
    assert(s.subrange(0, s.len() as int) =~= s);
}

/// Law: the digits of a whole number `n` read as `n`, with a minus sign in
/// front as minus `n`, and followed by `.5` as `n` and a half.
pub proof fn law_number_text(n: u32)
    ensures
        decimal_of(decimal_text(n as nat)) == Some(whole(n)),
        decimal_of(seq![45u8] + decimal_text(n as nat))
            == Some(Decimal { negative: true, nanos: (n * 1_000_000_000) as u64 }),
        decimal_of(decimal_text(n as nat) + seq![46u8, 53])
            == Some(Decimal { negative: false, nanos: (n * 1_000_000_000 + 500_000_000) as u64 }),
{
    let t = decimal_text(n as nat);
    lemma_decimal_text(n as nat);
    assert(decimal_digit(t[0]) is Some);
    assert(decimal_digit(t.last()) is Some);
    reveal_with_fuel(pow10, 10);
    // the digits alone
    lemma_plain_text(t);
    assert forall|j: int| 0 <= j < t.len() implies t[j] != 46 by {
        assert(decimal_digit(t[j]) is Some);
    }
    lemma_first_index_of(t, 46, t.len() as int);
    assert(t.take(t.len() as int) =~= t);
    assert(decimal_value(Seq::<u8>::empty()) == 0);
    // with a minus sign
    let m = seq![45u8] + t;
    assert(m.last() == t.last());
    lemma_plain_text(m);
    assert(m.drop_first() =~= t);
    // with a half
    let h = t + seq![46u8, 53];
    assert(h[0] == t[0]);
    lemma_plain_text(h);
    assert forall|j: int| 0 <= j < t.len() implies h[j] != 46 by {
        assert(h[j] == t[j]);
        assert(decimal_digit(t[j]) is Some);
    }
    lemma_first_index_of(h, 46, t.len() as int);
    assert(h.take(t.len() as int) =~= t);
    let f = h.skip(t.len() as int + 1);
    assert(f =~= seq![53u8]);
    assert(f.drop_last() =~= Seq::<u8>::empty());
    assert(decimal_value(f) == 5);
}

/// `d` times `f`.
pub open spec fn times(d: Decimal, f: u32) -> Decimal {
    Decimal { negative: d.negative, nanos: (d.nanos * f) as u64 }
}

proof fn lemma_scaled_edges(a: Decimal, b: Decimal, f: u32)
    requires
        a.nanos * f <= u64::MAX,
        b.nanos * f <= u64::MAX,
    ensures
        edge(nano(a), f as int) == edge(nano(times(a, f)), 1),
        edge(nano(a) + nano(b), f as int) == edge(nano(times(a, f)) + nano(times(b, f)), 1),
{
    let fi = f as int;
    assert(nano(times(a, f)) == nano(a) * fi) by (nonlinear_arith)
        requires
            nano(a) == (if a.negative { -(a.nanos as int) } else { a.nanos as int }),
            nano(times(a, f)) == (if a.negative { -((a.nanos * fi) as int) } else { (a.nanos * fi) as int }),
            a.nanos * fi <= u64::MAX;
    assert(nano(times(b, f)) == nano(b) * fi) by (nonlinear_arith)
        requires
            nano(b) == (if b.negative { -(b.nanos as int) } else { b.nanos as int }),
            nano(times(b, f)) == (if b.negative { -((b.nanos * fi) as int) } else { (b.nanos * fi) as int }),
            b.nanos * fi <= u64::MAX;
    assert((nano(a) + nano(b)) * fi == nano(a) * fi + nano(b) * fi) by (nonlinear_arith);
}

/// Law: a normalised box is the pixel box whose left edge and width are
/// its own times the image's width, and whose top edge and height are its
/// own times the image's height.
pub proof fn law_norm_is_scaled_pixels(v: CropValues, width: u32, height: u32)
    requires
        v.x.nanos * width <= u64::MAX,
        v.w.nanos * width <= u64::MAX,
        v.y.nanos * height <= u64::MAX,
        v.h.nanos * height <= u64::MAX,
    ensures
        crop_rect(CropBox { values: v, unit: CropUnit::Norm }, width, height) == crop_rect(
            CropBox {
                values: CropValues {
                    x: times(v.x, width),
                    y: times(v.y, height),
                    w: times(v.w, width),
                    h: times(v.h, height),
                },
                unit: CropUnit::Px,
            },
            width,
            height,
        ),
{
    lemma_scaled_edges(v.x, v.w, width);
    lemma_scaled_edges(v.y, v.h, height);
}

/// The pixels that the crop box covers in a `width` x `height` image.
pub fn clamp_crop_rect(c: &CropBox, width: u32, height: u32) -> (r: Option<CropRect>)
    ensures
        r == crop_rect(*c, width, height),
        r matches Some(rect) ==> rect.x + rect.w <= width && rect.y + rect.h <= height,
{
    let norm = match c.unit {
        CropUnit::Norm => true,
        CropUnit::Px => false,
    };
    let fx = if norm { width } else { 1 };
    let fy = if norm { height } else { 1 };
    let x = nano_exec(c.values.x);
    let y = nano_exec(c.values.y);
    let w = nano_exec(c.values.w);
    let h = nano_exec(c.values.h);
    let left = edge_exec(x, fx, width);
    let right = edge_exec(x + w, fx, width);
    let top = edge_exec(y, fy, height);
    let bottom = edge_exec(y + h, fy, height);
    if left < right && top < bottom {
        Some(CropRect { x: left, y: top, w: right - left, h: bottom - top })
    } else {
        None
    }
}

} // verus!
