//! White space in UTF-8 text, found by its bytes.
//!
//! White space is every character with the Unicode property `White_Space`:
//! the six ASCII ones, U+0085 and U+00A0 (two bytes each), and U+1680,
//! U+2000 to U+200A, U+2028, U+2029, U+202F, U+205F and U+3000 (three bytes
//! each). In valid UTF-8 these byte patterns stand for nothing else.

use vstd::prelude::*;

verus! {

/// Whether `byte` is one of the six ASCII white-space characters.
pub open spec fn is_ascii_space(byte: u8) -> bool {
    byte == 0x20 || 0x09 <= byte <= 0x0d
}

/// Whether the two bytes encode U+0085 or U+00A0.
pub open spec fn is_two_byte_space(a: u8, b: u8) -> bool {
    a == 0xc2 && (b == 0x85 || b == 0xa0)
}

/// Whether the three bytes encode a white-space character.
pub open spec fn is_three_byte_space(a: u8, b: u8, c: u8) -> bool {
    ||| a == 0xe1 && b == 0x9a && c == 0x80
    ||| a == 0xe2 && b == 0x80 && (0x80 <= c <= 0x8a || c == 0xa8 || c == 0xa9 || c == 0xaf)
    ||| a == 0xe2 && b == 0x81 && c == 0x9f
    ||| a == 0xe3 && b == 0x80 && c == 0x80
}

/// The number of bytes of the white-space character that begins at `at`, or
/// zero if none begins there.
pub open spec fn space_width(s: Seq<u8>, at: int) -> int {
    if at < 0 || at >= s.len() {
        0
    } else if is_ascii_space(s[at]) {
        1
    } else if at + 2 <= s.len() && is_two_byte_space(s[at], s[at + 1]) {
        2
    } else if at + 3 <= s.len() && is_three_byte_space(s[at], s[at + 1], s[at + 2]) {
        3
    } else {
        0
    }
}

/// The number of bytes of the white-space character that ends just before
/// `end`, or zero if none ends there.
pub open spec fn space_width_before(s: Seq<u8>, end: int) -> int {
    if end <= 0 || end > s.len() {
        0
    } else if is_ascii_space(s[end - 1]) {
        1
    } else if end >= 2 && is_two_byte_space(s[end - 2], s[end - 1]) {
        2
    } else if end >= 3 && is_three_byte_space(s[end - 3], s[end - 2], s[end - 1]) {
        3
    } else {
        0
    }
}

/// The first position at or after `from` where no white space begins.
pub open spec fn skip_spaces(s: Seq<u8>, from: int) -> int
    decreases s.len() - from,
{
    if space_width(s, from) > 0 {
        skip_spaces(s, from + space_width(s, from))
    } else {
        from
    }
}

/// The first position at or after `from` where white space begins, or the
/// length of `s`.
pub open spec fn word_end(s: Seq<u8>, from: int) -> int
    decreases s.len() - from,
{
    if 0 <= from < s.len() && space_width(s, from) == 0 {
        word_end(s, from + 1)
    } else {
        from
    }
}

/// The last position down to `low` before which no white space ends, going
/// back from `end`.
pub open spec fn skip_spaces_back(s: Seq<u8>, low: int, end: int) -> int
    decreases end,
{
    let width = space_width_before(s, end);
    if width > 0 && end - width >= low {
        skip_spaces_back(s, low, end - width)
    } else {
        end
    }
}

/// `s` without the white space at its two ends.
pub open spec fn trimmed(s: Seq<u8>) -> Seq<u8> {
    let low = skip_spaces(s, 0);
    s.subrange(low, skip_spaces_back(s, low, s.len() as int))
}

/// Where the word number `n` (from zero) begins and ends, counting the words
/// that begin at or after `from`. A word is a longest run of bytes in which
/// no white space begins.
pub open spec fn word_bounds(s: Seq<u8>, from: int, n: nat) -> Option<(int, int)>
    decreases n,
{
    let start = skip_spaces(s, from);
    if start >= s.len() {
        None
    } else if n == 0 {
        Some((start, word_end(s, start)))
    } else {
        word_bounds(s, word_end(s, start), (n - 1) as nat)
    }
}

/// The word number `n` (from zero) of `s`, if `s` has that many words.
pub open spec fn word(s: Seq<u8>, n: nat) -> Option<Seq<u8>> {
    match word_bounds(s, 0, n) {
        Some((start, end)) => Some(s.subrange(start, end)),
        None => None,
    }
}

/// The number of bytes of the white-space character that begins at `at`, or
/// zero if none begins there.
pub fn space_width_at(s: &[u8], at: usize) -> (width: usize)
    ensures
        width == space_width(s@, at as int),
        at + width <= s.len() || width == 0,
        width <= 3,
{
    if at >= s.len() {
        return 0;
    }
    let a = s[at];
    if a == 0x20 || (0x09 <= a && a <= 0x0d) {
        return 1;
    }
    if s.len() - at >= 2 {
        let b = s[at + 1];
        if a == 0xc2 && (b == 0x85 || b == 0xa0) {
            return 2;
        }
        if s.len() - at >= 3 {
            let c = s[at + 2];
            if three_byte_space(a, b, c) {
                return 3;
            }
        }
    }
    0
}

/// The number of bytes of the white-space character that ends just before
/// `end`, or zero if none ends there.
pub fn space_width_before_end(s: &[u8], end: usize) -> (width: usize)
    ensures
        width == space_width_before(s@, end as int),
        width <= end,
        width <= 3,
{
    if end == 0 || end > s.len() {
        return 0;
    }
    let c = s[end - 1];
    if c == 0x20 || (0x09 <= c && c <= 0x0d) {
        return 1;
    }
    if end >= 2 {
        let b = s[end - 2];
        if b == 0xc2 && (c == 0x85 || c == 0xa0) {
            return 2;
        }
        if end >= 3 {
            let a = s[end - 3];
            if three_byte_space(a, b, c) {
                return 3;
            }
        }
    }
    0
}

/// Whether the three bytes encode a white-space character.
fn three_byte_space(a: u8, b: u8, c: u8) -> (space: bool)
    ensures
        space == is_three_byte_space(a, b, c),
{
    (a == 0xe1 && b == 0x9a && c == 0x80) || (a == 0xe2 && b == 0x80 && ((0x80 <= c && c <= 0x8a)
        || c == 0xa8 || c == 0xa9 || c == 0xaf)) || (a == 0xe2 && b == 0x81 && c == 0x9f) || (a
        == 0xe3 && b == 0x80 && c == 0x80)
}

/// The first position at or after `from` where no white space begins.
pub fn skip_spaces_from(s: &[u8], from: usize) -> (at: usize)
    requires
        from <= s.len(),
    ensures
        at == skip_spaces(s@, from as int),
        from <= at <= s.len(),
{
    let mut at: usize = from;
    loop
        invariant
            from <= at <= s.len(),
            skip_spaces(s@, from as int) == skip_spaces(s@, at as int),
        decreases s.len() - at,
    {
        let width = space_width_at(s, at);
        if width == 0 {
            return at;
        }
        at = at + width;
    }
}

/// The first position at or after `from` where white space begins, or the
/// length of `s`.
pub fn word_end_from(s: &[u8], from: usize) -> (at: usize)
    requires
        from <= s.len(),
    ensures
        at == word_end(s@, from as int),
        from <= at <= s.len(),
{
    let mut at: usize = from;
    while at < s.len() && space_width_at(s, at) == 0
        invariant
            from <= at <= s.len(),
            word_end(s@, from as int) == word_end(s@, at as int),
        decreases s.len() - at,
    {
        at = at + 1;
    }
    at
}

/// `s` without the white space at its two ends.
pub fn trim(s: &[u8]) -> (inner: &[u8])
    ensures
        inner@ == trimmed(s@),
{
    let low = skip_spaces_from(s, 0);
    let mut end: usize = s.len();
    loop
        invariant
            low == skip_spaces(s@, 0),
            low <= end <= s.len(),
            skip_spaces_back(s@, low as int, s.len() as int) == skip_spaces_back(
                s@,
                low as int,
                end as int,
            ),
        decreases end,
    {
        let width = space_width_before_end(s, end);
        if width == 0 || end - width < low {
            return vstd::slice::slice_subrange(s, low, end);
        }
        end = end - width;
    }
}

/// The word number `n` (from zero) of `s`, if `s` has that many words.
pub fn nth_word(s: &[u8], n: usize) -> (found: Option<&[u8]>)
    ensures
        match found {
            Some(w) => word(s@, n as nat) == Some(w@),
            None => word(s@, n as nat) is None,
        },
{
    let mut from: usize = 0;
    let mut left: usize = n;
    loop
        invariant
            from <= s.len(),
            left <= n,
            word_bounds(s@, 0, n as nat) == word_bounds(s@, from as int, left as nat),
        decreases left,
    {
        let start = skip_spaces_from(s, from);
        if start >= s.len() {
            return None;
        }
        let end = word_end_from(s, start);
        if left == 0 {
            return Some(vstd::slice::slice_subrange(s, start, end));
        }
        from = end;
        left = left - 1;
    }
}

} // verus!
