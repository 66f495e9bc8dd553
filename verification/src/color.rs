//! Background colours: named colours and hexadecimal codes.
use vstd::prelude::*;
use vstd::string::StringSliceAdditionalSpecFns;
use crate::text::{bytes_equal, hex_digit, hex_pair, parse_hex_pair};

verus! {

/// An 8-bit RGBA colour.
#[derive(Debug, Clone, Copy, PartialEq, Eq, Structural)]
pub struct Rgba {
    pub r: u8,
    pub g: u8,
    pub b: u8,
    pub a: u8,
}

pub open spec fn rgba(r: u8, g: u8, b: u8, a: u8) -> Rgba {
    Rgba { r, g, b, a }
}

/// Fully transparent black, the background when none is asked for.
pub open spec fn transparent() -> Rgba { rgba(0, 0, 0, 0) }

/// Number of `#` bytes at the start of `s`.
pub open spec fn leading_hashes(s: Seq<u8>) -> nat
    decreases s.len(),
{
    if s.len() > 0 && s[0] == 35 { 1 + leading_hashes(s.drop_first()) } else { 0 }
}

/// The text after all leading `#` characters.
pub open spec fn hex_body(s: Seq<u8>) -> Seq<u8> {
    s.skip(leading_hashes(s) as int)
}

/// The colour that a hex code such as `ff0000` or `#ff0000` names.
pub open spec fn hex_color(s: Seq<u8>) -> Option<Rgba> {
    let h = hex_body(s);
    if h.len() != 6 {
        None
    } else {
        match (hex_pair(h[0], h[1]), hex_pair(h[2], h[3]), hex_pair(h[4], h[5])) {
            (Some(r), Some(g), Some(b)) => Some(rgba(r, g, b, 255)),
            _ => None,
        }
    }
}

proof fn lemma_leading_hashes(s: Seq<u8>, i: int)
    requires
        0 <= i <= s.len(),
        forall|j: int| 0 <= j < i ==> s[j] == 35,
        i == s.len() || s[i] != 35,
    ensures
        leading_hashes(s) == i,
    decreases i,
{
    if i > 0 {
        assert forall|j: int| 0 <= j < i - 1 implies s.drop_first()[j] == 35 by {
            assert(s.drop_first()[j] == s[j + 1]);
        }
        lemma_leading_hashes(s.drop_first(), i - 1);
    }
}

fn count_leading_hashes(b: &[u8]) -> (k: usize)
    ensures
        k == leading_hashes(b@),
        k <= b@.len(),
{
    let mut k: usize = 0;
    while k < b.len() && b[k] == 35
        invariant
            0 <= k <= b@.len(),
            forall|j: int| 0 <= j < k ==> b@[j] == 35,
        decreases b@.len() - k,
    {
        k = k + 1;
    }
    proof {
        lemma_leading_hashes(b@, k as int);
    }
    k
}

/// Reads a colour written as six hexadecimal digits after any number of `#`;
/// any other text, one with a character outside ASCII among the six bytes
/// too, names no colour.
pub fn parse_hex_color(hex: &str) -> (r: Option<Rgba>)
    ensures
        r == hex_color(hex.spec_bytes()),
{
    let b = hex.as_bytes();
    let k = count_leading_hashes(b);
    let ghost h = hex_body(b@);
    if b.len() - k != 6 {
        return None;
    }
    assert(h[0] == b@[k as int] && h[1] == b@[k + 1] && h[2] == b@[k + 2]);
    assert(h[3] == b@[k + 3] && h[4] == b@[k + 4] && h[5] == b@[k + 5]);
    let r = match parse_hex_pair(b[k], b[k + 1]) {
        Some(v) => v,
        None => return None,
    };
    let g = match parse_hex_pair(b[k + 2], b[k + 3]) {
        Some(v) => v,
        None => return None,
    };
    let bl = match parse_hex_pair(b[k + 4], b[k + 5]) {
        Some(v) => v,
        None => return None,
    };
    Some(Rgba { r, g, b: bl, a: 255 })
}

pub open spec fn word_white() -> Seq<u8> { seq![119u8, 104, 105, 116, 101] }
pub open spec fn word_black() -> Seq<u8> { seq![98u8, 108, 97, 99, 107] }
pub open spec fn word_gray() -> Seq<u8> { seq![103u8, 114, 97, 121] }

/// The padding colour that the `bg` value asks for: `white`, `black` and
/// `gray` by name, otherwise a hex code, and transparent when there is no
/// value or the code does not parse.
pub open spec fn bg_color(bg: Option<Seq<u8>>) -> Rgba {
    match bg {
        None => transparent(),
        Some(s) => if s == word_white() {
            rgba(255, 255, 255, 255)
        } else if s == word_black() {
            rgba(0, 0, 0, 255)
        } else if s == word_gray() {
            rgba(128, 128, 128, 255)
        } else {
            match hex_color(s) {
                Some(c) => c,
                None => transparent(),
            }
        },
    }
}

pub open spec fn opt_bytes(bg: Option<&str>) -> Option<Seq<u8>> {
    match bg {
        Some(s) => Some(s.spec_bytes()),
        None => None,
    }
}

/// The background colour for `contain` padding.
pub fn background_color(bg: Option<&str>) -> (r: Rgba)
    ensures
        r == bg_color(opt_bytes(bg)),
{
    match bg {
        None => Rgba { r: 0, g: 0, b: 0, a: 0 },
        Some(s) => {
            let white: [u8; 5] = [119, 104, 105, 116, 101];
            let black: [u8; 5] = [98, 108, 97, 99, 107];
            let gray: [u8; 4] = [103, 114, 97, 121];
            assert(white@ =~= word_white());
            assert(black@ =~= word_black());
            assert(gray@ =~= word_gray());
            let b = s.as_bytes();
            if bytes_equal(b, white.as_slice()) {
                Rgba { r: 255, g: 255, b: 255, a: 255 }
            } else if bytes_equal(b, black.as_slice()) {
                Rgba { r: 0, g: 0, b: 0, a: 255 }
            } else if bytes_equal(b, gray.as_slice()) {
                Rgba { r: 128, g: 128, b: 128, a: 255 }
            } else {
                match parse_hex_color(s) {
                    Some(c) => c,
                    None => Rgba { r: 0, g: 0, b: 0, a: 0 },
                }
            }
        },
    }
}

/// The lower-case hex digit for `d` < 16.
pub open spec fn hex_char(d: nat) -> u8 {
    if d < 10 { (48 + d) as u8 } else { (87 + d) as u8 }
}

/// The six-digit code of a colour, as in `ff0000`.
pub open spec fn hex_text(r: u8, g: u8, b: u8) -> Seq<u8> {
    seq![
        hex_char(r as nat / 16), hex_char(r as nat % 16),
        hex_char(g as nat / 16), hex_char(g as nat % 16),
        hex_char(b as nat / 16), hex_char(b as nat % 16),
    ]
}

/// `k` hash signs.
pub open spec fn hashes(k: nat) -> Seq<u8> {
    Seq::new(k, |i: int| 35u8)
}

proof fn lemma_leading_hashes_prefix(k: nat, t: Seq<u8>)
    requires
        t.len() == 0 || t[0] != 35,
    ensures
        leading_hashes(hashes(k) + t) == k,
{
    let s = hashes(k) + t;
    assert forall|j: int| 0 <= j < k implies s[j] == 35 by {}
    lemma_leading_hashes(s, k as int);
}

/// Law: a colour written as six hex digits, after any number of `#`, reads
/// back as that colour, opaque.
pub proof fn law_hex_round_trip(k: nat, r: u8, g: u8, b: u8)
    ensures
        hex_color(hashes(k) + hex_text(r, g, b)) == Some(rgba(r, g, b, 255)),
{
    let t = hex_text(r, g, b);
    let s = hashes(k) + t;
    lemma_leading_hashes_prefix(k, t);
    assert(hex_body(s) =~= t);
}

/// The value of the hex digit `b`.
pub open spec fn digit_value(b: u8) -> int {
    if 48 <= b <= 57 { b - 48 } else if 97 <= b <= 102 { b - 87 } else { b - 55 }
}

/// Law: six hex digits after any number of `#` name, as padding too, the
/// opaque colour whose red is the first two digits, green the next two and
/// blue the last two, each read in base 16.
pub proof fn law_hex_digits_name_colour(k: nat, s: Seq<u8>)
    requires
        s.len() == 6,
        forall|i: int| 0 <= i < 6 ==> #[trigger] hex_digit(s[i]) is Some,
    ensures
        ({
            let c = rgba(
                (16 * digit_value(s[0]) + digit_value(s[1])) as u8,
                (16 * digit_value(s[2]) + digit_value(s[3])) as u8,
                (16 * digit_value(s[4]) + digit_value(s[5])) as u8,
                255,
            );
            &&& hex_color(hashes(k) + s) == Some(c)
            &&& bg_color(Some(hashes(k) + s)) == c
        }),
{
    assert(hex_digit(s[0]) is Some);
    assert(hex_digit(s[1]) is Some);
    assert(hex_digit(s[2]) is Some);
    assert(hex_digit(s[3]) is Some);
    assert(hex_digit(s[4]) is Some);
    assert(hex_digit(s[5]) is Some);
    lemma_leading_hashes_prefix(k, s);
    let t = hashes(k) + s;
    assert(hex_body(t) =~= s);
    assert(t.len() != word_white().len());
    assert(t.len() != word_gray().len());
}

/// Law: a text whose six bytes after the `#` signs hold one outside ASCII,
/// such as `a\u{e9}123`, names no colour.
pub proof fn law_non_ascii_names_no_colour(s: Seq<u8>, i: int)
    requires
        hex_body(s).len() == 6,
        0 <= i < 6,
        hex_body(s)[i] >= 128,
    ensures
        hex_color(s) is None,
{
}

proof fn lemma_leading_hashes_bound(s: Seq<u8>)
    ensures
        leading_hashes(s) <= s.len(),
    decreases s.len(),
{
    if s.len() > 0 && s[0] == 35 {
        lemma_leading_hashes_bound(s.drop_first());
    }
}

/// Law: a `#` in front of a text does not change what it reads as: the same
/// colour, or none.
pub proof fn law_hash_prefix_ignored(s: Seq<u8>)
    ensures
        hex_color(seq![35u8] + s) == hex_color(s),
{
    let hash = seq![35u8];
    let t = hash + s;
    assert(t.drop_first() =~= s);
    assert(leading_hashes(t) == 1 + leading_hashes(s));
    lemma_leading_hashes_bound(s);
    assert(hex_body(t) =~= hex_body(s));
}

/// Law: a `bg` text that is neither a colour name nor a hex code, such as
/// `a\u{e9}123`, pads with transparent pixels.
pub proof fn law_unknown_bg_is_transparent(s: Seq<u8>)
    requires
        s != word_white(),
        s != word_black(),
        s != word_gray(),
        hex_color(s) is None,
    ensures
        bg_color(Some(s)) == transparent(),
{
}

/// Law: the named colours are opaque; without a `bg` value the padding is
/// transparent.
pub proof fn law_named_colors()
    ensures
        bg_color(Some(word_white())) == rgba(255, 255, 255, 255),
        bg_color(Some(word_black())) == rgba(0, 0, 0, 255),
        bg_color(Some(word_gray())) == rgba(128, 128, 128, 255),
        bg_color(None) == transparent(),
{
    assert(word_black() != word_white());
    assert(word_gray() != word_white());
    assert(word_gray() != word_black());
}

} // verus!
