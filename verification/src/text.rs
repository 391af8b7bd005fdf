//! Searching and splitting byte strings.
//!
//! Requests arrive as bytes and are taken apart as bytes. Every separator
//! this service looks for is ASCII, so a split never falls inside a
//! character of a UTF-8 text.

use vstd::prelude::*;
use vstd::string::*;
use vstd::utf8::*;

verus! {

/// The position of the first `byte` in `s` at or after `from`, or the length
/// of `s` if there is none.
pub open spec fn find_byte_from(s: Seq<u8>, byte: u8, from: int) -> int
    decreases s.len() - from,
{
    if from < 0 || from >= s.len() {
        s.len() as int
    } else if s[from] == byte {
        from
    } else {
        find_byte_from(s, byte, from + 1)
    }
}

/// The position of the first `byte` in `s`, or the length of `s` if there is
/// none.
pub open spec fn find_byte(s: Seq<u8>, byte: u8) -> int {
    find_byte_from(s, byte, 0)
}

/// Whether `pattern` stands in `s` at position `at`.
pub open spec fn occurs_at(s: Seq<u8>, pattern: Seq<u8>, at: int) -> bool {
    0 <= at && at + pattern.len() <= s.len() && s.subrange(at, at + pattern.len()) == pattern
}

/// The first position at or after `from` where `pattern` stands in `s`, or
/// the length of `s` if it stands nowhere. Meant for a `pattern` that is not
/// empty.
pub open spec fn find_pattern_from(s: Seq<u8>, pattern: Seq<u8>, from: int) -> int
    decreases s.len() - from,
{
    if from < 0 || from >= s.len() {
        s.len() as int
    } else if occurs_at(s, pattern, from) {
        from
    } else {
        find_pattern_from(s, pattern, from + 1)
    }
}

/// The first position where `pattern` stands in `s`, or the length of `s` if
/// it stands nowhere.
pub open spec fn find_pattern(s: Seq<u8>, pattern: Seq<u8>) -> int {
    find_pattern_from(s, pattern, 0)
}

/// What is left of `s` once every leading repetition of `prefix` has been
/// taken off. An empty `prefix` takes nothing off.
pub open spec fn strip_repeated_prefix(s: Seq<u8>, prefix: Seq<u8>) -> Seq<u8>
    decreases s.len(),
{
    if prefix.len() > 0 && prefix.is_prefix_of(s) {
        strip_repeated_prefix(s.skip(prefix.len() as int), prefix)
    } else {
        s
    }
}

/// Where a search from `from` ends: within bounds, on the byte if it is
/// found, and past every byte that is not it.
pub proof fn lemma_find_byte_from(s: Seq<u8>, byte: u8, from: int)
    requires
        0 <= from <= s.len(),
    ensures
        from <= find_byte_from(s, byte, from) <= s.len(),
        find_byte_from(s, byte, from) < s.len() ==> s[find_byte_from(s, byte, from)] == byte,
        forall|k: int| from <= k < find_byte_from(s, byte, from) ==> s[k] != byte,
    decreases s.len() - from,
{
    if from < s.len() && s[from] != byte {
        lemma_find_byte_from(s, byte, from + 1);
    }
}

/// Whether the two byte strings are equal.
pub fn bytes_equal(a: &[u8], b: &[u8]) -> (equal: bool)
    ensures
        equal == (a@ == b@),
{
    if a.len() != b.len() {
        return false;
    }
    let mut i: usize = 0;
    while i < a.len()
        invariant
            a.len() == b.len(),
            i <= a.len(),
            forall|k: int| 0 <= k < i ==> a@[k] == b@[k],
        decreases a.len() - i,
    {
        if a[i] != b[i] {
            return false;
        }
        i = i + 1;
    }
    assert(a@ =~= b@);
    true
}

/// Whether `pattern` stands in `s` at position `at`.
pub fn matches_at(s: &[u8], pattern: &[u8], at: usize) -> (found: bool)
    ensures
        found == occurs_at(s@, pattern@, at as int),
{
    if pattern.len() > s.len() || at > s.len() - pattern.len() {
        return false;
    }
    let mut i: usize = 0;
    while i < pattern.len()
        invariant
            at + pattern.len() <= s.len(),
            i <= pattern.len(),
            forall|k: int| 0 <= k < i ==> s@[at + k] == pattern@[k],
        decreases pattern.len() - i,
    {
        if s[at + i] != pattern[i] {
            assert(s@.subrange(at as int, at + pattern.len())[i as int] != pattern@[i as int]);
            return false;
        }
        i = i + 1;
    }
    assert(s@.subrange(at as int, at + pattern.len()) =~= pattern@);
    true
}

/// Whether `s` begins with `prefix`.
pub fn starts_with(s: &[u8], prefix: &[u8]) -> (found: bool)
    ensures
        found == prefix@.is_prefix_of(s@),
{
    let found = matches_at(s, prefix, 0);
    proof {
        if prefix.len() <= s.len() {
            assert(s@.subrange(0, prefix.len() as int) =~= s@.take(prefix.len() as int));
            if found {
                assert(prefix@ =~= s@.subrange(0, prefix.len() as int));
            }
            if prefix@.is_prefix_of(s@) {
                assert(s@.subrange(0, prefix.len() as int) =~= prefix@);
            }
        }
    }
    found
}

/// The position of the first `byte` in `s` at or after `from`, or the length
/// of `s` if there is none.
pub fn position_of_byte(s: &[u8], byte: u8, from: usize) -> (at: usize)
    requires
        from <= s.len(),
    ensures
        at == find_byte_from(s@, byte, from as int),
        from <= at <= s.len(),
{
    let mut i: usize = from;
    while i < s.len()
        invariant
            from <= i <= s.len(),
            find_byte_from(s@, byte, from as int) == find_byte_from(s@, byte, i as int),
        decreases s.len() - i,
    {
        if s[i] == byte {
            return i;
        }
        i = i + 1;
    }
    i
}

/// The first position where `pattern` stands in `s`, or the length of `s` if
/// it stands nowhere.
pub fn position_of_pattern(s: &[u8], pattern: &[u8]) -> (at: usize)
    ensures
        at == find_pattern(s@, pattern@),
        at <= s.len(),
        at < s.len() ==> occurs_at(s@, pattern@, at as int),
{
    let mut i: usize = 0;
    while i < s.len()
        invariant
            i <= s.len(),
            find_pattern(s@, pattern@) == find_pattern_from(s@, pattern@, i as int),
        decreases s.len() - i,
    {
        if matches_at(s, pattern, i) {
            return i;
        }
        i = i + 1;
    }
    i
}

/// Takes every leading repetition of `prefix` off `s`.
pub fn trim_start_matches<'a>(s: &'a [u8], prefix: &[u8]) -> (rest: &'a [u8])
    ensures
        rest@ == strip_repeated_prefix(s@, prefix@),
{
    if prefix.len() == 0 {
        return s;
    }
    let mut at: usize = 0;
    assert(s@.skip(0) =~= s@);
    while matches_at(s, prefix, at)
        invariant
            at <= s.len(),
            prefix.len() > 0,
            strip_repeated_prefix(s@, prefix@) == strip_repeated_prefix(s@.skip(at as int), prefix@),
        decreases s.len() - at,
    {
        proof {
            let here = s@.skip(at as int);
            assert(here.subrange(0, prefix.len() as int) =~= s@.subrange(
                at as int,
                at + prefix.len(),
            ));
            assert(here.take(prefix.len() as int) =~= here.subrange(0, prefix.len() as int));
            assert(prefix@.is_prefix_of(here));
            assert(here.skip(prefix.len() as int) =~= s@.skip(at + prefix.len()));
        }
        at = at + prefix.len();
    }
    proof {
        let here = s@.skip(at as int);
        if prefix@.is_prefix_of(here) {
            assert(here.subrange(0, prefix.len() as int) =~= s@.subrange(
                at as int,
                at + prefix.len(),
            ));
            assert(here.take(prefix.len() as int) =~= here.subrange(0, prefix.len() as int));
            assert(occurs_at(s@, prefix@, at as int));
        }
        assert(s@.subrange(at as int, s.len() as int) =~= s@.skip(at as int));
    }
    vstd::slice::slice_subrange(s, at, s.len())
}

/// `std::str::from_utf8`: the text that the bytes encode, if they are valid
/// UTF-8; the text's encoding is then the bytes themselves.
#[verifier::external_body]
pub(crate) fn utf8_text(bytes: &[u8]) -> (text: Option<&str>)
    ensures
        match text {
            Some(s) => valid_utf8(bytes@) && s.spec_bytes() == bytes@,
            None => !valid_utf8(bytes@),
        },
{
    std::str::from_utf8(bytes).ok()
}

/// Whether the bytes are valid UTF-8.
pub fn is_utf8(bytes: &[u8]) -> (valid: bool)
    ensures
        valid == valid_utf8(bytes@),
{
    utf8_text(bytes).is_some()
}

/// Appends the bytes of `s` to `out`.
pub fn push_bytes(out: &mut Vec<u8>, s: &[u8])
    ensures
        final(out)@ == old(out)@ + s@,
{
    let mut i: usize = 0;
    while i < s.len()
        invariant
            i <= s.len(),
            out@ == old(out)@ + s@.take(i as int),
        decreases s.len() - i,
    {
        out.push(s[i]);
        assert(out@ =~= old(out)@ + s@.take(i + 1));
        i = i + 1;
    }
    assert(s@.take(i as int) =~= s@);
}

} // verus!
