//! Decimal integers in ASCII.
//!
//! A number is an optional sign and at least one digit, with nothing before
//! or after; a value that does not fit the type is no number. An unsigned
//! number takes `+` as its only sign.

use vstd::prelude::*;

verus! {

/// Whether `byte` is an ASCII digit.
pub open spec fn is_digit(byte: u8) -> bool {
    0x30 <= byte <= 0x39
}

/// Whether every byte of `s` is an ASCII digit.
pub open spec fn all_digits(s: Seq<u8>) -> bool {
    forall|i: int| 0 <= i < s.len() ==> is_digit(#[trigger] s[i])
}

/// The number that the digits of `s` write in base ten.
pub open spec fn digits_value(s: Seq<u8>) -> nat
    decreases s.len(),
{
    if s.len() == 0 {
        0
    } else {
        (digits_value(s.drop_last()) * 10 + (s.last() - 0x30)) as nat
    }
}

/// The digits of a number without its sign, and whether the sign was `-`.
/// With `signed` false a leading `-` is left in place, where it is no digit.
pub open spec fn split_sign(s: Seq<u8>, signed: bool) -> (bool, Seq<u8>) {
    if s.len() > 0 && s[0] == 0x2b {
        (false, s.skip(1))
    } else if signed && s.len() > 0 && s[0] == 0x2d {
        (true, s.skip(1))
    } else {
        (false, s)
    }
}

/// The integer that `s` writes, if it writes one: an optional sign (`-` only
/// with `signed`) and one digit or more.
pub open spec fn decimal_int(s: Seq<u8>, signed: bool) -> Option<int> {
    let (negative, digits) = split_sign(s, signed);
    if digits.len() == 0 || !all_digits(digits) {
        None
    } else if negative {
        Some(-(digits_value(digits) as int))
    } else {
        Some(digits_value(digits) as int)
    }
}

/// The `i64` that `s` writes, if it writes one that fits.
pub open spec fn decimal_i64(s: Seq<u8>) -> Option<i64> {
    match decimal_int(s, true) {
        Some(v) => if i64::MIN <= v <= i64::MAX {
            Some(v as i64)
        } else {
            None
        },
        None => None,
    }
}

/// The `usize` that `s` writes, if it writes one that fits.
pub open spec fn decimal_usize(s: Seq<u8>) -> Option<usize> {
    match decimal_int(s, false) {
        Some(v) => if v <= usize::MAX {
            Some(v as usize)
        } else {
            None
        },
        None => None,
    }
}

/// Digits appended to a number never make it smaller.
proof fn lemma_digits_value_grows(s: Seq<u8>, k: int)
    requires
        0 <= k <= s.len(),
        all_digits(s),
    ensures
        digits_value(s.take(k)) <= digits_value(s),
    decreases s.len() - k,
{
    if k < s.len() {
        lemma_digits_value_grows(s, k + 1);
        assert(s.take(k + 1).drop_last() =~= s.take(k));
        assert(is_digit(s[k]));
    } else {
        assert(s.take(k) =~= s);
    }
}

/// The value of a run of digits, if there is at least one digit, every byte
/// is a digit and the value is at most `max`.
pub fn parse_digits(s: &[u8], max: u128) -> (value: Option<u128>)
    requires
        max <= 0x1_0000_0000_0000_0000,
    ensures
        value == if s.len() > 0 && all_digits(s@) && digits_value(s@) <= max {
            Some(digits_value(s@) as u128)
        } else {
            None
        },
{
    if s.len() == 0 {
        return None;
    }
    let mut acc: u128 = 0;
    let mut i: usize = 0;
    while i < s.len()
        invariant
            i <= s.len(),
            max <= 0x1_0000_0000_0000_0000,
            all_digits(s@.take(i as int)),
            acc == digits_value(s@.take(i as int)),
            acc <= max,
        decreases s.len() - i,
    {
        let byte = s[i];
        if byte < 0x30 || byte > 0x39 {
            assert(!is_digit(s@[i as int]));
            return None;
        }
        proof {
            assert(s@.take(i + 1).drop_last() =~= s@.take(i as int));
            assert(s@.take(i + 1).last() == byte);
            assert forall|k: int| 0 <= k < i + 1 implies is_digit(#[trigger] s@.take(i + 1)[k]) by {
                if k < i {
                    assert(s@.take(i as int)[k] == s@.take(i + 1)[k]);
                }
            }
        }
        let next: u128 = acc * 10 + (byte - 0x30) as u128;
        if next > max {
            proof {
                if all_digits(s@) {
                    lemma_digits_value_grows(s@, i + 1);
                }
            }
            return None;
        }
        acc = next;
        i = i + 1;
    }
    assert(s@.take(i as int) =~= s@);
    Some(acc)
}

/// Reads a signed decimal number that fits an `i64`.
pub fn parse_i64(s: &[u8]) -> (value: Option<i64>)
    ensures
        value == decimal_i64(s@),
{
    if s.len() == 0 {
        return None;
    }
    let first = s[0];
    if first == 0x2d {
        let digits = vstd::slice::slice_subrange(s, 1, s.len());
        assert(digits@ =~= s@.skip(1));
        match parse_digits(digits, 0x8000_0000_0000_0000) {
            Some(magnitude) => {
                if magnitude == 0x8000_0000_0000_0000 {
                    Some(i64::MIN)
                } else {
                    let positive: i64 = magnitude as i64;
                    Some(-positive)
                }
            },
            None => None,
        }
    } else {
        let digits = if first == 0x2b {
            vstd::slice::slice_subrange(s, 1, s.len())
        } else {
            s
        };
        assert(first == 0x2b ==> digits@ =~= s@.skip(1));
        match parse_digits(digits, 0x7fff_ffff_ffff_ffff) {
            Some(magnitude) => Some(magnitude as i64),
            None => None,
        }
    }
}

/// Reads an unsigned decimal number that fits a `usize`.
pub fn parse_usize(s: &[u8]) -> (value: Option<usize>)
    ensures
        value == decimal_usize(s@),
{
    if s.len() == 0 {
        return None;
    }
    let digits = if s[0] == 0x2b {
        vstd::slice::slice_subrange(s, 1, s.len())
    } else {
        s
    };
    assert(s@[0] == 0x2b ==> digits@ =~= s@.skip(1));
    match parse_digits(digits, usize::MAX as u128) {
        Some(magnitude) => Some(magnitude as usize),
        None => None,
    }
}

/// The digits that write `n` in base ten, without leading zeros.
pub open spec fn decimal_digits(n: nat) -> Seq<u8>
    decreases n,
{
    if n < 10 {
        seq![(0x30 + n) as u8]
    } else {
        decimal_digits(n / 10).push((0x30 + n % 10) as u8)
    }
}

/// The digits of a number are digits, and they write the number.
proof fn lemma_decimal_digits_value(n: nat)
    ensures
        decimal_digits(n).len() > 0,
        all_digits(decimal_digits(n)),
        digits_value(decimal_digits(n)) == n,
    decreases n,
{
    if n < 10 {
        let s = decimal_digits(n);
        assert(s.drop_last() =~= Seq::<u8>::empty());
        assert(digits_value(s.drop_last()) == 0);
    } else {
        lemma_decimal_digits_value(n / 10);
        let s = decimal_digits(n);
        let head = decimal_digits(n / 10);
        assert(s.drop_last() =~= head);
        assert forall|i: int| 0 <= i < s.len() implies is_digit(#[trigger] s[i]) by {
            if i < head.len() {
                assert(s[i] == head[i]);
            }
        }
    }
}

/// Reading the digits of a number gives the number back: a length that is
/// written into a response is read as the same length.
pub proof fn lemma_decimal_digits_round_trip(n: usize)
    ensures
        decimal_usize(decimal_digits(n as nat)) == Some(n),
{
    lemma_decimal_digits_value(n as nat);
    let s = decimal_digits(n as nat);
    assert(is_digit(s[0]));
}

/// Appends the decimal digits of `n` to `out`.
pub fn push_decimal(out: &mut Vec<u8>, n: usize)
    ensures
        final(out)@ == old(out)@ + decimal_digits(n as nat),
    decreases n,
{
    if n >= 10 {
        push_decimal(out, n / 10);
    }
    let digit: u8 = 0x30 + (n % 10) as u8;
    out.push(digit);
    assert(out@ =~= old(out)@ + decimal_digits(n as nat));
}

} // verus!
