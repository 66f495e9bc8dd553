//! The `fit` request parameter.
use vstd::prelude::*;
use crate::text::{ascii_lower, eq_ignore_ascii_case, matches_ignore_ascii_case};
use vstd::string::StringSliceAdditionalSpecFns;

verus! {

/// How the image is brought to the requested size.
#[derive(Debug, Clone, Copy, PartialEq, Eq, Structural)]
pub enum ResizeFit {
    /// Keep the aspect ratio, fit inside the box and pad the rest.
    Contain,
    /// Keep the aspect ratio, fill the box and crop the overflow.
    Cover,
    /// Stretch to exactly the requested size.
    Fill,
}

pub open spec fn word_contain() -> Seq<u8> { seq![99u8, 111, 110, 116, 97, 105, 110] }
pub open spec fn word_cover() -> Seq<u8> { seq![99u8, 111, 118, 101, 114] }
pub open spec fn word_fill() -> Seq<u8> { seq![102u8, 105, 108, 108] }

/// The fit mode that `text` names, compared case-insensitively.
pub open spec fn fit_named(text: Seq<u8>) -> Option<ResizeFit> {
    if eq_ignore_ascii_case(text, word_contain()) {
        Some(ResizeFit::Contain)
    } else if eq_ignore_ascii_case(text, word_cover()) {
        Some(ResizeFit::Cover)
    } else if eq_ignore_ascii_case(text, word_fill()) {
        Some(ResizeFit::Fill)
    } else {
        None
    }
}

impl ResizeFit {
    /// Parses `contain`, `cover` or `fill` in any letter case.
    ///
    /// The comparison lower-cases ASCII letters only. For these three words
    /// this is the same as comparing the Unicode lower-case form of `s`: no
    /// character outside ASCII lower-cases to a letter of them.
    pub fn from_str(s: &str) -> (r: Result<ResizeFit, ()>)
        ensures
            match fit_named(s.spec_bytes()) {
                Some(f) => r == Ok::<ResizeFit, ()>(f),
                None => r is Err,
            },
    {
        let b = s.as_bytes();
        let contain: [u8; 7] = [99, 111, 110, 116, 97, 105, 110];
        let cover: [u8; 5] = [99, 111, 118, 101, 114];
        let fill: [u8; 4] = [102, 105, 108, 108];
        assert(contain@ =~= word_contain());
        assert(cover@ =~= word_cover());
        assert(fill@ =~= word_fill());
        if matches_ignore_ascii_case(b, contain.as_slice()) {
            Ok(ResizeFit::Contain)
        } else if matches_ignore_ascii_case(b, cover.as_slice()) {
            Ok(ResizeFit::Cover)
        } else if matches_ignore_ascii_case(b, fill.as_slice()) {
            Ok(ResizeFit::Fill)
        } else {
            Err(())
        }
    }
}

/// The ASCII lower-case form of a text.
pub open spec fn lowered(s: Seq<u8>) -> Seq<u8> {
    s.map_values(|b: u8| ascii_lower(b))
}

proof fn lemma_lowered_matches(s: Seq<u8>, word: Seq<u8>)
    ensures
        eq_ignore_ascii_case(lowered(s), word) == eq_ignore_ascii_case(s, word),
{
    let l = lowered(s);
    if eq_ignore_ascii_case(s, word) {
        assert forall|i: int| 0 <= i < l.len() implies #[trigger] ascii_lower(l[i]) == word[i] by {
            assert(ascii_lower(s[i]) == word[i]);
        }
    }
    if eq_ignore_ascii_case(l, word) {
        assert forall|i: int| 0 <= i < s.len() implies #[trigger] ascii_lower(s[i]) == word[i] by {
            assert(ascii_lower(l[i]) == word[i]);
        }
    }
}

/// Law: letter case does not matter to the `fit` parameter.
pub proof fn law_fit_ignores_case(s: Seq<u8>)
    ensures
        fit_named(lowered(s)) == fit_named(s),
{
    lemma_lowered_matches(s, word_contain());
    lemma_lowered_matches(s, word_cover());
    lemma_lowered_matches(s, word_fill());
}

/// Law: each mode's name, in lower case, reads as that mode, and the three
/// names are told apart.
pub proof fn law_fit_names()
    ensures
        fit_named(word_contain()) == Some(ResizeFit::Contain),
        fit_named(word_cover()) == Some(ResizeFit::Cover),
        fit_named(word_fill()) == Some(ResizeFit::Fill),
{
    assert(eq_ignore_ascii_case(word_contain(), word_contain()));
    assert(!eq_ignore_ascii_case(word_cover(), word_contain()));
    assert(eq_ignore_ascii_case(word_cover(), word_cover()));
    assert(!eq_ignore_ascii_case(word_fill(), word_contain()));
    assert(!eq_ignore_ascii_case(word_fill(), word_cover()));
    assert(eq_ignore_ascii_case(word_fill(), word_fill()));
}

} // verus!
