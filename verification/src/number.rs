//! Municipality identifiers as they are written in a dataset field.
//!
//! A field holds either a decimal number or, behind the marker `0x`, a
//! hexadecimal one. Either may carry one leading `+`, has at least one digit,
//! and must fit in sixteen bits.

use crate::text::chars_of;
use vstd::prelude::*;

verus! {

/// The value of `c` as a digit in `radix` (ten or sixteen), if it is one.
pub open spec fn digit_value(c: char, radix: nat) -> Option<nat> {
    if '0' <= c <= '9' {
        Some((c as nat - '0' as nat) as nat)
    } else if radix == 16 && 'a' <= c <= 'f' {
        Some((c as nat - 'a' as nat + 10) as nat)
    } else if radix == 16 && 'A' <= c <= 'F' {
        Some((c as nat - 'A' as nat + 10) as nat)
    } else {
        None
    }
}

/// Every character of `s` is a digit in `radix`.
pub open spec fn all_digits(s: Seq<char>, radix: nat) -> bool {
    forall|i: int| 0 <= i < s.len() ==> (#[trigger] digit_value(s[i], radix)) is Some
}

/// The number that the digits `s` denote in `radix`, most significant first.
pub open spec fn digits_value(s: Seq<char>, radix: nat) -> nat
    decreases s.len(),
{
    if s.len() == 0 {
        0
    } else {
        match digit_value(s.last(), radix) {
            Some(d) => digits_value(s.drop_last(), radix) * radix + d,
            None => 0,
        }
    }
}

/// `s` without one leading `+`, if it has one.
pub open spec fn unsigned_digits(s: Seq<char>) -> Seq<char> {
    if s.len() > 0 && s[0] == '+' {
        s.skip(1)
    } else {
        s
    }
}

/// The sixteen-bit number written as `s` in `radix`: an optional `+`, then
/// one or more digits whose value is at most 65535.
pub open spec fn unsigned_value(s: Seq<char>, radix: nat) -> Option<u16> {
    let digits = unsigned_digits(s);
    if digits.len() > 0 && all_digits(digits, radix) && digits_value(digits, radix) <= u16::MAX {
        Some(digits_value(digits, radix) as u16)
    } else {
        None
    }
}

/// `s` begins with the hexadecimal marker `0x`.
pub open spec fn has_hex_marker(s: Seq<char>) -> bool {
    s.len() >= 2 && s[0] == '0' && s[1] == 'x'
}

/// The municipality identifier that a dataset field denotes, if any.
pub open spec fn municipality_id_of(field: Seq<char>) -> Option<u16> {
    if has_hex_marker(field) {
        unsigned_value(field.skip(2), 16)
    } else {
        unsigned_value(field, 10)
    }
}

/// Reading more digits never makes the number smaller: the value of a prefix
/// of a digit string is at most the value of the whole.
pub proof fn lemma_digits_value_grows(s: Seq<char>, radix: nat, k: int)
    requires
        radix >= 1,
        all_digits(s, radix),
        0 <= k <= s.len(),
    ensures
        digits_value(s.take(k), radix) <= digits_value(s, radix),
    decreases s.len(),
{
    if k == s.len() {
        assert(s.take(k) == s);
    } else {
        let front = s.drop_last();
        assert(front.take(k) == s.take(k));
        assert(all_digits(front, radix));
        lemma_digits_value_grows(front, radix, k);
        assert(digits_value(front, radix) <= digits_value(front, radix) * radix)
            by (nonlinear_arith)
            requires
                radix >= 1,
        ;
    }
}

/// The value of `c` as a digit in `radix`.
fn digit_of(c: char, radix: u32) -> (d: Option<u32>)
    requires
        radix == 10 || radix == 16,
    ensures
        d == match digit_value(c, radix as nat) {
            Some(v) => Some(v as u32),
            None => None,
        },
        d matches Some(v) ==> v < radix,
{
    if '0' <= c && c <= '9' {
        Some(c as u32 - '0' as u32)
    } else if radix == 16 && 'a' <= c && c <= 'f' {
        Some(c as u32 - 'a' as u32 + 10)
    } else if radix == 16 && 'A' <= c && c <= 'F' {
        Some(c as u32 - 'A' as u32 + 10)
    } else {
        None
    }
}

/// Reads the characters of `chars` from `start` on as an unsigned number in
/// `radix`.
fn parse_unsigned(chars: &Vec<char>, start: usize, radix: u32) -> (value: Option<u16>)
    requires
        start <= chars.len(),
        radix == 10 || radix == 16,
    ensures
        value == unsigned_value(chars@.skip(start as int), radix as nat),
{
    let ghost field = chars@.skip(start as int);
    let ghost digits = unsigned_digits(field);
    let mut i: usize = start;
    if i < chars.len() && chars[i] == '+' {
        i = i + 1;
    }
    if i == chars.len() {
        return None;
    }
    let first: usize = i;
    let mut acc: u32 = 0;
    while i < chars.len()
        invariant
            first <= i <= chars.len(),
            radix == 10 || radix == 16,
            digits == chars@.skip(first as int),
            digits == unsigned_digits(field),
            field == chars@.skip(start as int),
            all_digits(digits.take(i - first), radix as nat),
            acc == digits_value(digits.take(i - first), radix as nat),
            acc <= u16::MAX,
        decreases chars.len() - i,
    {
        let ghost k = i - first;
        assert(digits.take(k + 1).drop_last() == digits.take(k));
        match digit_of(chars[i], radix) {
            None => {
                assert(digit_value(digits[k], radix as nat) is None);
                return None;
            },
            Some(d) => {
                let next: u32 = acc * radix + d;
                assert(all_digits(digits.take(k + 1), radix as nat));
                if next > 65535 {
                    proof {
                        if all_digits(digits, radix as nat) {
                            lemma_digits_value_grows(digits, radix as nat, k + 1);
                        }
                    }
                    return None;
                }
                acc = next;
                i = i + 1;
            },
        }
    }
    assert(digits.take(i - first) == digits);
    Some(acc as u16)
}

/// Reads a dataset field as a municipality identifier.
pub fn parse_municipality_id(field: &str) -> (id: Option<u16>)
    ensures
        id == municipality_id_of(field@),
{
    let chars = chars_of(field);
    if chars.len() >= 2 && chars[0] == '0' && chars[1] == 'x' {
        parse_unsigned(&chars, 2, 16)
    } else {
        assert(chars@.skip(0) == chars@);
        parse_unsigned(&chars, 0, 10)
    }
}

} // verus!
