//! The canvas that `contain` pads with: a tiled pattern image, or one colour.
use vstd::prelude::*;
use vstd::arithmetic::div_mod::{lemma_fundamental_div_mod, lemma_fundamental_div_mod_converse, lemma_mod_bound};
use crate::color::{background_color, bg_color, opt_bytes};
use crate::picture::{
    ImageTerm, Picture, PictureView, decoded_rgba8, load_picture, picture_view, raster_picture,
    rgba8_pixels, rgba_len_fits, solid_picture,
};

verus! {

/// Byte `i` of a canvas `w` pixels wide, tiled with the RGBA8 pattern `px`
/// of `pw` x `ph` pixels: pixel (x, y) of the canvas is pixel
/// (x mod pw, y mod ph) of the pattern.
pub open spec fn tile_byte(px: Seq<u8>, pw: u32, ph: u32, w: u32, i: int) -> u8 {
    let p = i / 4;
    let x = p % (w as int);
    let y = p / (w as int);
    px[4 * ((y % (ph as int)) * (pw as int) + x % (pw as int)) + i % 4]
}

/// The RGBA8 bytes of a `w` x `h` canvas tiled with `px`.
pub open spec fn tiled(px: Seq<u8>, pw: u32, ph: u32, w: u32, h: u32) -> Seq<u8> {
    Seq::new((4 * ((h as int) * (w as int))) as nat, |i: int| tile_byte(px, pw, ph, w, i))
}

proof fn lemma_tile_index(w: u32, x: u32, y: u32, c: int)
    requires
        x < w,
        0 <= c < 4,
    ensures
        ({
            let i = 4 * ((y as int) * (w as int) + x) + c;
            &&& i / 4 == (y as int) * (w as int) + x
            &&& i % 4 == c
            &&& (i / 4) % (w as int) == x
            &&& (i / 4) / (w as int) == y
        }),
{
    let p = (y as int) * (w as int) + x;
    lemma_fundamental_div_mod_converse(4 * p + c, 4, p, c);
    lemma_fundamental_div_mod_converse(p, w as int, y as int, x as int);
}

proof fn lemma_pattern_index(a: int, b: int, pw: int, ph: int)
    requires
        0 <= a < ph,
        0 <= b < pw,
    ensures
        0 <= a * pw + b < ph * pw,
        4 * (a * pw + b) + 3 < 4 * (ph * pw),
{
    assert(a * pw + b < ph * pw) by (nonlinear_arith)
        requires 0 <= a < ph, 0 <= b < pw;
    assert(0 <= a * pw) by (nonlinear_arith)
        requires 0 <= a, 0 <= pw;
}

/// Fills a `w` x `h` RGBA8 canvas row by row with copies of the pattern.
pub fn tile_pattern(px: &[u8], pw: u32, ph: u32, w: u32, h: u32) -> (r: Vec<u8>)
    requires
        px@.len() == 4 * ((pw as int) * (ph as int)),
        w == 0 || h == 0 || (pw >= 1 && ph >= 1),
        rgba_len_fits(w, h),
    ensures
        r@ == tiled(px@, pw, ph, w, h),
{
    let n: usize = px.len();
    let mut data: Vec<u8> = Vec::new();
    let mut y: u32 = 0;
    while y < h
        invariant
            0 <= y <= h,
            px@.len() == 4 * ((pw as int) * (ph as int)),
            w == 0 || h == 0 || (pw >= 1 && ph >= 1),
            n == px@.len(),
            data@.len() == 4 * ((y as int) * (w as int)),
            forall|i: int| 0 <= i < data@.len() ==> data@[i] == tile_byte(px@, pw, ph, w, i),
        decreases h - y,
    {
        let mut x: u32 = 0;
        while x < w
            invariant
                0 <= y < h,
                0 <= x <= w,
                px@.len() == 4 * ((pw as int) * (ph as int)),
                w >= 1 ==> pw >= 1 && ph >= 1,
                n == px@.len(),
                data@.len() == 4 * ((y as int) * (w as int) + x),
                forall|i: int| 0 <= i < data@.len() ==> data@[i] == tile_byte(px@, pw, ph, w, i),
            decreases w - x,
        {
            let a = y % ph;
            let b = x % pw;
            proof {
                lemma_pattern_index(a as int, b as int, pw as int, ph as int);
                assert((a as int) * (pw as int) <= (ph as int) * (pw as int)) by (nonlinear_arith)
                    requires 0 <= a < ph, 0 <= pw;
                assert((ph as int) * (pw as int) == (pw as int) * (ph as int)) by (nonlinear_arith);
            }
            let src: usize = 4 * ((a as usize) * (pw as usize) + (b as usize));
            let ghost before = data@;
            data.push(px[src]);
            data.push(px[src + 1]);
            data.push(px[src + 2]);
            data.push(px[src + 3]);
            proof {
                assert forall|i: int| 0 <= i < data@.len() implies data@[i] == tile_byte(px@, pw, ph, w, i) by {
                    if i >= before.len() {
                        let c = i - before.len();
                        lemma_tile_index(w, x, y, c);
                    }
                }
            }
            x = x + 1;
        }
        proof {
            assert((y as int) * (w as int) + (w as int) == ((y + 1) as int) * (w as int)) by (nonlinear_arith);
        }
        y = y + 1;
    }
    assert(data@ =~= tiled(px@, pw, ph, w, h));
    data
}

/// Byte `c` of pixel (x, y) of a canvas `w` pixels wide.
pub open spec fn pixel_byte(canvas: Seq<u8>, w: u32, x: int, y: int, c: int) -> u8 {
    canvas[4 * (y * (w as int) + x) + c]
}

proof fn lemma_in_canvas(w: u32, h: u32, x: u32, y: u32, c: int)
    requires
        x < w,
        y < h,
        0 <= c < 4,
    ensures
        0 <= 4 * ((y as int) * (w as int) + x) + c < 4 * ((h as int) * (w as int)),
{
    assert((y as int) * (w as int) + x < (h as int) * (w as int)) by (nonlinear_arith)
        requires x < w, y < h;
    assert(0 <= (y as int) * (w as int)) by (nonlinear_arith);
}

proof fn lemma_mod_shift(a: int, m: int)
    requires
        a >= 0,
        m >= 1,
    ensures
        (a + m) % m == a % m,
{
    lemma_fundamental_div_mod(a, m);
    lemma_mod_bound(a, m);
    let q = a / m;
    assert((q + 1) * m == m * q + m) by (nonlinear_arith);
    lemma_fundamental_div_mod_converse(a + m, m, a / m + 1, a % m);
}

/// Law: the tiled canvas shows the pattern itself in its top-left corner,
/// and repeats it every pattern width across and every pattern height down.
pub proof fn law_tiling(px: Seq<u8>, pw: u32, ph: u32, w: u32, h: u32, x: u32, y: u32, c: int)
    requires
        pw >= 1,
        ph >= 1,
        x < w,
        y < h,
        0 <= c < 4,
    ensures
        x < pw && y < ph ==> pixel_byte(tiled(px, pw, ph, w, h), w, x as int, y as int, c)
            == px[4 * ((y as int) * (pw as int) + x) + c],
        x + pw < w ==> pixel_byte(tiled(px, pw, ph, w, h), w, x + pw, y as int, c)
            == pixel_byte(tiled(px, pw, ph, w, h), w, x as int, y as int, c),
        y + ph < h ==> pixel_byte(tiled(px, pw, ph, w, h), w, x as int, y + ph, c)
            == pixel_byte(tiled(px, pw, ph, w, h), w, x as int, y as int, c),
{
    lemma_in_canvas(w, h, x, y, c);
    lemma_tile_index(w, x, y, c);
    lemma_mod_shift(x as int, pw as int);
    lemma_mod_shift(y as int, ph as int);
    if x < pw && y < ph {
        lemma_fundamental_div_mod_converse(x as int, pw as int, 0, x as int);
        lemma_fundamental_div_mod_converse(y as int, ph as int, 0, y as int);
    }
    if x + pw < w {
        let x2 = (x + pw) as u32;
        lemma_in_canvas(w, h, x2, y, c);
        lemma_tile_index(w, x2, y, c);
    }
    if y + ph < h {
        let y2 = (y + ph) as u32;
        lemma_in_canvas(w, h, x, y2, c);
        lemma_tile_index(w, x, y2, c);
    }
}

pub open spec fn opt_slice(p: Option<&[u8]>) -> Option<Seq<u8>> {
    match p {
        Some(d) => Some(d@),
        None => None,
    }
}

/// The decoded pattern, when pattern bytes are given and decode.
pub open spec fn pattern_of(pattern: Option<Seq<u8>>) -> Option<(u32, u32, Seq<u8>)> {
    match pattern {
        Some(d) => decoded_rgba8(d),
        None => None,
    }
}

/// The canvas for `contain` padding: the pattern tiled over it when one is
/// given and decodes, otherwise the `bg` colour.
pub open spec fn background_view(w: u32, h: u32, bg: Option<Seq<u8>>, pattern: Option<Seq<u8>>) -> PictureView {
    match pattern_of(pattern) {
        Some(p) => picture_view(w, h, ImageTerm::Raster(w, h, tiled(p.2, p.0, p.1, w, h))),
        None => picture_view(w, h, ImageTerm::Solid(w, h, bg_color(bg))),
    }
}

/// When the canvas can be drawn: its buffer length fits `usize`, and a
/// decoded pattern has pixels to repeat unless the canvas is empty. Any
/// `bg` text will do: one that names no colour gives transparent padding.
pub open spec fn background_drawable(w: u32, h: u32, pattern: Option<Seq<u8>>) -> bool {
    &&& rgba_len_fits(w, h)
    &&& match pattern_of(pattern) {
        Some(p) => w == 0 || h == 0 || (p.0 >= 1 && p.1 >= 1),
        None => true,
    }
}

/// Law: pattern bytes that do not decode count as no pattern at all: the
/// canvas, and whether it can be drawn, are those without a pattern.
pub proof fn law_undecodable_pattern_is_ignored(w: u32, h: u32, bg: Option<&str>, data: Seq<u8>)
    requires
        decoded_rgba8(data) is None,
    ensures
        background_view(w, h, opt_bytes(bg), Some(data)) == background_view(w, h, opt_bytes(bg), None),
        background_drawable(w, h, Some(data)) == background_drawable(w, h, None),
{
}

/// Builds the `width` x `height` canvas that `contain` pads with.
pub fn create_background(width: u32, height: u32, bg: Option<&str>, pattern_data: Option<&[u8]>) -> (r: Picture)
    requires
        background_drawable(width, height, opt_slice(pattern_data)),
    ensures
        r@ == background_view(width, height, opt_bytes(bg), opt_slice(pattern_data)),
{
    if let Some(data) = pattern_data {
        if let Ok(pattern) = load_picture(data) {
            let (pw, ph) = (pattern.width(), pattern.height());
            let px = rgba8_pixels(&pattern);
            let tiles = tile_pattern(px.as_slice(), pw, ph, width, height);
            proof {
                assert((height as int) * (width as int) == (width as int) * (height as int)) by (nonlinear_arith);
            }
            if let Some(p) = raster_picture(width, height, tiles) {
                return p;
            }
        }
    }
    let color = background_color(bg);
    solid_picture(width, height, color)
}

} // verus!
