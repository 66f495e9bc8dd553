//! Byte-level helpers on ASCII text.
use vstd::prelude::*;

verus! {

/// ASCII lower-casing of one byte; other bytes are left alone.
pub open spec fn ascii_lower(b: u8) -> u8 {
    if 65 <= b <= 90 { (b + 32) as u8 } else { b }
}

/// `s` equals `word` (given in lower case) when both are lower-cased.
pub open spec fn eq_ignore_ascii_case(s: Seq<u8>, word: Seq<u8>) -> bool {
    &&& s.len() == word.len()
    &&& forall|i: int| 0 <= i < s.len() ==> #[trigger] ascii_lower(s[i]) == word[i]
}

pub fn lower_byte(b: u8) -> (r: u8)
    ensures r == ascii_lower(b),
{
    if 65 <= b && b <= 90 { b + 32 } else { b }
}

/// Case-insensitive comparison of `s` with a lower-case ASCII `word`.
pub fn matches_ignore_ascii_case(s: &[u8], word: &[u8]) -> (r: bool)
    ensures r == eq_ignore_ascii_case(s@, word@),
{
    if s.len() != word.len() {
        return false;
    }
    let mut i: usize = 0;
    while i < s.len()
        invariant
            s@.len() == word@.len(),
            0 <= i <= s@.len(),
            forall|j: int| 0 <= j < i ==> #[trigger] ascii_lower(s@[j]) == word@[j],
        decreases s@.len() - i,
    {
        if lower_byte(s[i]) != word[i] {
            return false;
        }
        i = i + 1;
    }
    true
}

/// Exact byte equality.
pub fn bytes_equal(s: &[u8], word: &[u8]) -> (r: bool)
    ensures r == (s@ == word@),
{
    if s.len() != word.len() {
        return false;
    }
    let mut i: usize = 0;
    while i < s.len()
        invariant
            s@.len() == word@.len(),
            0 <= i <= s@.len(),
            forall|j: int| 0 <= j < i ==> s@[j] == word@[j],
        decreases s@.len() - i,
    {
        if s[i] != word[i] {
            return false;
        }
        i = i + 1;
    }
    assert(s@ =~= word@);
    true
}

} // verus!

verus! {

/// Value of an ASCII decimal digit.
pub open spec fn decimal_digit(b: u8) -> Option<nat> {
    if 48 <= b <= 57 { Some((b - 48) as nat) } else { None }
}

/// Value of an ASCII hexadecimal digit, in either letter case.
pub open spec fn hex_digit(b: u8) -> Option<nat> {
    if 48 <= b <= 57 {
        Some((b - 48) as nat)
    } else if 97 <= b <= 102 {
        Some((b - 87) as nat)
    } else if 65 <= b <= 70 {
        Some((b - 55) as nat)
    } else {
        None
    }
}

pub open spec fn all_decimal(s: Seq<u8>) -> bool {
    forall|i: int| 0 <= i < s.len() ==> #[trigger] decimal_digit(s[i]) is Some
}

/// The number that a run of decimal digits spells.
pub open spec fn decimal_value(s: Seq<u8>) -> nat
    decreases s.len(),
{
    if s.len() == 0 {
        0
    } else {
        decimal_value(s.drop_last()) * 10 + match decimal_digit(s.last()) {
            Some(d) => d,
            None => 0,
        }
    }
}

/// The text without one leading `+`.
pub open spec fn without_plus(s: Seq<u8>) -> Seq<u8> {
    if s.len() > 0 && s[0] == 43 { s.drop_first() } else { s }
}

/// `u32` parsing of decimal text: an optional `+`, then one or more digits,
/// whose value fits in a `u32`.
pub open spec fn parsed_u32(s: Seq<u8>) -> Option<u32> {
    let d = without_plus(s);
    if d.len() == 0 || !all_decimal(d) || decimal_value(d) > u32::MAX {
        None
    } else {
        Some(decimal_value(d) as u32)
    }
}

/// `u8` parsing of two bytes in base 16: either two hex digits, or `+` and
/// one hex digit.
pub open spec fn hex_pair(b0: u8, b1: u8) -> Option<u8> {
    if b0 == 43 {
        match hex_digit(b1) {
            Some(d) => Some(d as u8),
            None => None,
        }
    } else {
        match (hex_digit(b0), hex_digit(b1)) {
            (Some(h), Some(l)) => Some((h * 16 + l) as u8),
            _ => None,
        }
    }
}

proof fn lemma_decimal_value_grows(s: Seq<u8>, j: int, k: int)
    requires
        0 <= j <= k <= s.len(),
    ensures
        decimal_value(s.take(j)) <= decimal_value(s.take(k)),
    decreases k - j,
{
    if j < k {
        lemma_decimal_value_grows(s, j, k - 1);
        assert(s.take(k).drop_last() =~= s.take(k - 1));
    }
}

fn decimal_digit_exec(b: u8) -> (r: Option<u32>)
    ensures
        match decimal_digit(b) {
            Some(d) => r == Some(d as u32),
            None => r is None,
        },
{
    if 48 <= b && b <= 57 { Some((b - 48) as u32) } else { None }
}

fn hex_digit_exec(b: u8) -> (r: Option<u8>)
    ensures
        match hex_digit(b) {
            Some(d) => r == Some(d as u8),
            None => r is None,
        },
{
    if 48 <= b && b <= 57 {
        Some(b - 48)
    } else if 97 <= b && b <= 102 {
        Some(b - 87)
    } else if 65 <= b && b <= 70 {
        Some(b - 55)
    } else {
        None
    }
}

/// Parses decimal text as `str::parse::<u32>` does.
pub fn parse_u32(text: &[u8]) -> (r: Option<u32>)
    ensures
        r == parsed_u32(text@),
{
    let start: usize = if text.len() > 0 && text[0] == 43 { 1 } else { 0 };
    let ghost d = without_plus(text@);
    assert(d =~= text@.skip(start as int));
    if start == text.len() {
        return None;
    }
    let mut value: u32 = 0;
    let mut i: usize = start;
    while i < text.len()
        invariant
            start <= i <= text@.len(),
            d == without_plus(text@),
            d =~= text@.skip(start as int),
            all_decimal(d.take(i - start)),
            value == decimal_value(d.take(i - start)),
        decreases text@.len() - i,
    {
        let ghost n: int = i - start;
        assert(d.take(n + 1).drop_last() =~= d.take(n));
        assert(d[n] == text@[i as int]);
        assert(d.take(n + 1).last() == d[n]);
        match decimal_digit_exec(text[i]) {
            None => {
                assert(decimal_digit(d[n]) is None);
                assert(!all_decimal(d));
                return None;
            },
            Some(digit) => {
                if value > 429496729 || (value == 429496729 && digit > 5) {
                    proof {
                        lemma_decimal_value_grows(d, n + 1, d.len() as int);
                        assert(d.take(d.len() as int) =~= d);
                    }
                    return None;
                }
                value = value * 10 + digit;
                i = i + 1;
                assert forall|j: int| 0 <= j < d.take(n + 1).len() implies
                    #[trigger] decimal_digit(d.take(n + 1)[j]) is Some by {
                    if j < n {
                        assert(d.take(n + 1)[j] == d.take(n)[j]);
                    }
                }
            },
        }
    }
    assert(d.take(d.len() as int) =~= d);
    Some(value)
}

/// Parses two bytes in base 16 as `u8::from_str_radix(_, 16)` does.
pub fn parse_hex_pair(b0: u8, b1: u8) -> (r: Option<u8>)
    ensures
        r == hex_pair(b0, b1),
{
    if b0 == 43 {
        hex_digit_exec(b1)
    } else {
        match (hex_digit_exec(b0), hex_digit_exec(b1)) {
            (Some(h), Some(l)) => Some(h * 16 + l),
            _ => None,
        }
    }
}

} // verus!

verus! {

/// The decimal digits of `n`, most significant first, without leading zeros.
pub open spec fn decimal_text(n: nat) -> Seq<u8>
    decreases n,
{
    if n < 10 {
        seq![(48 + n) as u8]
    } else {
        decimal_text(n / 10).push((48 + n % 10) as u8)
    }
}

pub(crate) proof fn lemma_decimal_text(n: nat)
    ensures
        decimal_text(n).len() >= 1,
        all_decimal(decimal_text(n)),
        decimal_value(decimal_text(n)) == n,
        decimal_text(n)[0] != 43,
    decreases n,
{
    if n < 10 {
        let t = decimal_text(n);
        assert(t.drop_last() =~= Seq::<u8>::empty());
        assert(decimal_value(t.drop_last()) == 0);
        assert(t.last() == (48 + n) as u8);
    } else {
        lemma_decimal_text(n / 10);
        let t = decimal_text(n);
        let p = decimal_text(n / 10);
        assert(t.drop_last() =~= p);
        assert forall|i: int| 0 <= i < t.len() implies #[trigger] decimal_digit(t[i]) is Some by {
            if i < p.len() {
                assert(t[i] == p[i]);
            }
        }
        assert(t[0] == p[0]);
        assert(t.last() == (48 + n % 10) as u8);
        assert(decimal_digit(t.last()) == Some(n % 10));
        assert(n == (n / 10) * 10 + n % 10);
    }
}

/// Law: every `u32` written in decimal parses back to itself.
pub proof fn law_u32_text_round_trip(n: u32)
    ensures
        parsed_u32(decimal_text(n as nat)) == Some(n),
{
    lemma_decimal_text(n as nat);
    assert(without_plus(decimal_text(n as nat)) == decimal_text(n as nat));
}

/// Law: a leading `+` does not change what a decimal text parses to, unless
/// the text is only that sign.
pub proof fn law_u32_plus_sign(t: Seq<u8>)
    requires
        t.len() >= 1,
        t[0] != 43,
    ensures
        parsed_u32(seq![43u8] + t) == parsed_u32(t),
{
    assert((seq![43u8] + t).drop_first() =~= t);
}

} // verus!

verus! {

/// Index of the first `b` in `s`, or the length of `s` when there is none.
pub open spec fn first_index_of(s: Seq<u8>, b: u8) -> nat
    decreases s.len(),
{
    if s.len() == 0 {
        0
    } else if s[0] == b {
        0
    } else {
        1 + first_index_of(s.drop_first(), b)
    }
}

pub(crate) proof fn lemma_first_index_of(s: Seq<u8>, b: u8, i: int)
    requires
        0 <= i <= s.len(),
        forall|j: int| 0 <= j < i ==> s[j] != b,
        i == s.len() || s[i] == b,
    ensures
        first_index_of(s, b) == i,
    decreases i,
{
    if i > 0 {
        assert forall|j: int| 0 <= j < i - 1 implies s.drop_first()[j] != b by {
            assert(s.drop_first()[j] == s[j + 1]);
        }
        lemma_first_index_of(s.drop_first(), b, i - 1);
    }
}

/// Finds the first `b` in `s[from..to]`, as an index into `s`; `to` when
/// there is none.
pub fn find_byte(s: &[u8], from: usize, to: usize, b: u8) -> (r: usize)
    requires
        from <= to <= s@.len(),
    ensures
        r == from + first_index_of(s@.subrange(from as int, to as int), b),
        r <= to,
{
    let mut i = from;
    while i < to && s[i] != b
        invariant
            from <= i <= to <= s@.len(),
            forall|j: int| from <= j < i ==> s@[j] != b,
        decreases to - i,
    {
        i = i + 1;
    }
    proof {
        let t = s@.subrange(from as int, to as int);
        assert forall|j: int| 0 <= j < i - from implies t[j] != b by {
            assert(t[j] == s@[from + j]);
        }
        if i < to {
            assert(t[i - from] == s@[i as int]);
        }
        lemma_first_index_of(t, b, i - from);
    }
    i
}

/// Number of spaces at the start of `s`.
pub open spec fn leading_spaces(s: Seq<u8>) -> nat
    decreases s.len(),
{
    if s.len() > 0 && s[0] == 32 { 1 + leading_spaces(s.drop_first()) } else { 0 }
}

/// Number of spaces at the end of `s`.
pub open spec fn trailing_spaces(s: Seq<u8>) -> nat
    decreases s.len(),
{
    if s.len() > 0 && s.last() == 32 { 1 + trailing_spaces(s.drop_last()) } else { 0 }
}

/// `s` without the spaces around it.
pub open spec fn trim_spaces(s: Seq<u8>) -> Seq<u8> {
    if leading_spaces(s) == s.len() {
        Seq::empty()
    } else {
        s.subrange(leading_spaces(s) as int, s.len() - trailing_spaces(s))
    }
}

pub(crate) proof fn lemma_leading_spaces(s: Seq<u8>, i: int)
    requires
        0 <= i <= s.len(),
        forall|j: int| 0 <= j < i ==> s[j] == 32,
        i == s.len() || s[i] != 32,
    ensures
        leading_spaces(s) == i,
    decreases i,
{
    if i > 0 {
        assert forall|j: int| 0 <= j < i - 1 implies s.drop_first()[j] == 32 by {
            assert(s.drop_first()[j] == s[j + 1]);
        }
        lemma_leading_spaces(s.drop_first(), i - 1);
    }
}

pub(crate) proof fn lemma_trailing_spaces(s: Seq<u8>, e: int)
    requires
        0 <= e <= s.len(),
        forall|j: int| e <= j < s.len() ==> s[j] == 32,
        e == 0 || s[e - 1] != 32,
    ensures
        trailing_spaces(s) == s.len() - e,
    decreases s.len() - e,
{
    if e < s.len() {
        assert forall|j: int| e <= j < s.drop_last().len() implies s.drop_last()[j] == 32 by {
            assert(s.drop_last()[j] == s[j]);
        }
        lemma_trailing_spaces(s.drop_last(), e);
    }
}

/// The bounds of `s[from..to]` without the spaces around it.
pub fn trim_range(s: &[u8], from: usize, to: usize) -> (r: (usize, usize))
    requires
        from <= to <= s@.len(),
    ensures
        from <= r.0 <= r.1 <= to,
        s@.subrange(r.0 as int, r.1 as int) == trim_spaces(s@.subrange(from as int, to as int)),
{
    let ghost t = s@.subrange(from as int, to as int);
    let mut a = from;
    while a < to && s[a] == 32
        invariant
            from <= a <= to <= s@.len(),
            forall|j: int| from <= j < a ==> s@[j] == 32,
        decreases to - a,
    {
        a = a + 1;
    }
    proof {
        assert forall|j: int| 0 <= j < a - from implies t[j] == 32 by {
            assert(t[j] == s@[from + j]);
        }
        if a < to {
            assert(t[a - from] == s@[a as int]);
        }
        lemma_leading_spaces(t, a - from);
    }
    if a == to {
        assert(s@.subrange(a as int, a as int) =~= Seq::<u8>::empty());
        return (a, a);
    }
    let mut e = to;
    while e > a && s[e - 1] == 32
        invariant
            from <= a < to <= s@.len(),
            a <= e <= to,
            s@[a as int] != 32,
            forall|j: int| e <= j < to ==> s@[j] == 32,
        decreases e - a,
    {
        e = e - 1;
    }
    proof {
        assert forall|j: int| e - from <= j < t.len() implies t[j] == 32 by {
            assert(t[j] == s@[from + j]);
        }
        assert(e > a);
        assert(t[e - from - 1] == s@[e - 1]);
        lemma_trailing_spaces(t, e - from);
        assert(s@.subrange(a as int, e as int) =~= t.subrange(a - from, t.len() - (to - e)));
    }
    (a, e)
}

} // verus!
