//! EXIF orientation: which flips and turns make the image upright.
use vstd::prelude::*;
use crate::picture::{
    ImageTerm, Picture, PictureView, flip_h, flip_v, picture_view, rotate_180, rotate_270, rotate_90,
};

verus! {

/// The image made upright for EXIF orientation `o`: 2 mirrors it, 3 turns it
/// half way, 4 flips it, 5 flips and turns it a quarter clockwise, 6 turns it
/// a quarter clockwise, 7 flips and turns it three quarters, 8 turns it three
/// quarters; any other value leaves it as it is.
pub open spec fn oriented_term(t: ImageTerm, o: u32) -> ImageTerm {
    if o == 2 {
        ImageTerm::FlipH(Box::new(t))
    } else if o == 3 {
        ImageTerm::Rotate180(Box::new(t))
    } else if o == 4 {
        ImageTerm::FlipV(Box::new(t))
    } else if o == 5 {
        ImageTerm::Rotate90(Box::new(ImageTerm::FlipV(Box::new(t))))
    } else if o == 6 {
        ImageTerm::Rotate90(Box::new(t))
    } else if o == 7 {
        ImageTerm::Rotate270(Box::new(ImageTerm::FlipV(Box::new(t))))
    } else if o == 8 {
        ImageTerm::Rotate270(Box::new(t))
    } else {
        t
    }
}

/// Orientations 5 to 8 turn the image a quarter, so width and height swap.
pub open spec fn swaps_sides(o: u32) -> bool {
    5 <= o <= 8
}

pub open spec fn oriented_view(v: PictureView, o: u32) -> PictureView {
    if swaps_sides(o) {
        picture_view(v.height, v.width, oriented_term(v.term, o))
    } else {
        picture_view(v.width, v.height, oriented_term(v.term, o))
    }
}

/// Makes the image upright for EXIF orientation `orientation`.
pub fn apply_orientation(img: Picture, orientation: u32) -> (r: Picture)
    ensures
        r@ == oriented_view(img@, orientation),
{
    if orientation == 2 {
        flip_h(&img)
    } else if orientation == 3 {
        rotate_180(&img)
    } else if orientation == 4 {
        flip_v(&img)
    } else if orientation == 5 {
        rotate_90(&flip_v(&img))
    } else if orientation == 6 {
        rotate_90(&img)
    } else if orientation == 7 {
        rotate_270(&flip_v(&img))
    } else if orientation == 8 {
        rotate_270(&img)
    } else {
        img
    }
}

/// Law: an orientation keeps the pixel count, and swaps the sides exactly
/// for the quarter turns (5 to 8).
pub proof fn law_orientation_size(v: PictureView, o: u32)
    ensures
        oriented_view(v, o).width as int * oriented_view(v, o).height as int == v.width as int * v.height as int,
        swaps_sides(o) ==> oriented_view(v, o).width == v.height && oriented_view(v, o).height == v.width,
        !swaps_sides(o) ==> oriented_view(v, o).width == v.width && oriented_view(v, o).height == v.height,
{
    assert(v.height as int * v.width as int == v.width as int * v.height as int) by (nonlinear_arith);
}

/// Law: each EXIF orientation applies its own flips and turns: 2 mirrors
/// left to right, 3 turns a half, 4 flips top to bottom, 5 flips top to
/// bottom then turns a quarter clockwise, 6 turns a quarter clockwise, 7
/// flips top to bottom then turns three quarters, 8 turns three quarters.
pub proof fn law_orientation_turns(v: PictureView)
    ensures
        oriented_view(v, 2) == picture_view(v.width, v.height, ImageTerm::FlipH(Box::new(v.term))),
        oriented_view(v, 3) == picture_view(v.width, v.height, ImageTerm::Rotate180(Box::new(v.term))),
        oriented_view(v, 4) == picture_view(v.width, v.height, ImageTerm::FlipV(Box::new(v.term))),
        oriented_view(v, 5) == picture_view(v.height, v.width,
            ImageTerm::Rotate90(Box::new(ImageTerm::FlipV(Box::new(v.term))))),
        oriented_view(v, 6) == picture_view(v.height, v.width, ImageTerm::Rotate90(Box::new(v.term))),
        oriented_view(v, 7) == picture_view(v.height, v.width,
            ImageTerm::Rotate270(Box::new(ImageTerm::FlipV(Box::new(v.term))))),
        oriented_view(v, 8) == picture_view(v.height, v.width, ImageTerm::Rotate270(Box::new(v.term))),
{
}

/// Law: orientation 1 (upright), and any value outside 1 to 8, leaves the
/// image as decoded.
pub proof fn law_upright_unchanged(v: PictureView, o: u32)
    requires
        o < 2 || o > 8,
    ensures
        oriented_view(v, o) == v,
{
}

} // verus!
