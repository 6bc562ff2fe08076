//! Decimal integers in text.
//!
//! A number is written as a run of ASCII digits, optionally preceded by a
//! sign: `+` everywhere, `-` only where negative values are allowed. Leading
//! zeros are allowed; anything else, including surrounding white space, an
//! empty digit run or a value outside the target range, makes the text no
//! number at all.

use vstd::prelude::*;

verus! {

/// Whether `c` is one of the ASCII digits `0` to `9`.
pub open spec fn is_digit(c: char) -> bool {
    '0' <= c <= '9'
}

/// The value of the digit `c`; zero for any other character.
pub open spec fn digit_value(c: char) -> nat {
    if is_digit(c) {
        (c as u32 - '0' as u32) as nat
    } else {
        0
    }
}

/// Whether every character of `s` is a digit.
pub open spec fn all_digits(s: Seq<char>) -> bool {
    forall|i: int| 0 <= i < s.len() ==> is_digit(#[trigger] s[i])
}

/// The number that the digits of `s` denote in base ten.
pub open spec fn decimal_value(s: Seq<char>) -> nat
    decreases s.len(),
{
    if s.len() == 0 {
        0
    } else {
        decimal_value(s.drop_last()) * 10 + digit_value(s.last())
    }
}

/// The value of `s` read as an unsigned run of digits, provided that `s` is
/// not empty, holds digits only and denotes a number of at most `max`.
pub open spec fn numeral_value(s: Seq<char>, max: nat) -> Option<nat> {
    if s.len() > 0 && all_digits(s) && decimal_value(s) <= max {
        Some(decimal_value(s))
    } else {
        None
    }
}

/// The value of `s` read as a number of `0..=max`: a run of digits that an
/// optional `+` may precede.
pub open spec fn unsigned_value(s: Seq<char>, max: nat) -> Option<nat> {
    if s.len() > 0 && s.first() == '+' {
        numeral_value(s.drop_first(), max)
    } else {
        numeral_value(s, max)
    }
}

/// The value of `s` read as a number of `min..=max`, where `min <= 0 <= max`:
/// a run of digits that an optional `+` or `-` may precede.
pub open spec fn signed_value(s: Seq<char>, min: int, max: int) -> Option<int> {
    if s.len() > 0 && s.first() == '-' {
        match numeral_value(s.drop_first(), (-min) as nat) {
            Some(n) => Some(-(n as int)),
            None => None,
        }
    } else {
        match unsigned_value(s, max as nat) {
            Some(n) => Some(n as int),
            None => None,
        }
    }
}

/// Whether `s` is a run of one or more `0`.
pub open spec fn all_zeros(s: Seq<char>) -> bool {
    s.len() > 0 && forall|i: int| 0 <= i < s.len() ==> #[trigger] s[i] == '0'
}

/// Whether `s` writes zero: one or more `0`, which a `+` may precede.
pub open spec fn writes_zero(s: Seq<char>) -> bool {
    if s.len() > 0 && s.first() == '+' {
        all_zeros(s.drop_first())
    } else {
        all_zeros(s)
    }
}

/// A run of digits denotes zero exactly when it is empty or all of them
/// are `0`.
pub proof fn lemma_decimal_value_zero(s: Seq<char>)
    requires
        all_digits(s),
    ensures
        decimal_value(s) == 0 <==> (forall|i: int| 0 <= i < s.len() ==> #[trigger] s[i] == '0'),
    decreases s.len(),
{
    if s.len() > 0 {
        let front = s.drop_last();
        assert(all_digits(front)) by {
            assert forall|i: int| 0 <= i < front.len() implies is_digit(#[trigger] front[i]) by {
                assert(front[i] == s[i]);
            }
        }
        lemma_decimal_value_zero(front);
        assert(is_digit(s[s.len() - 1]));
        if decimal_value(s) == 0 {
            assert forall|i: int| 0 <= i < s.len() implies #[trigger] s[i] == '0' by {
                if i < s.len() - 1 {
                    assert(front[i] == s[i]);
                }
            }
        }
        if forall|i: int| 0 <= i < s.len() ==> #[trigger] s[i] == '0' {
            assert forall|i: int| 0 <= i < front.len() implies #[trigger] front[i] == '0' by {
                assert(front[i] == s[i]);
            }
        }
    }
}

/// A run of zeros is a run of digits that denotes zero, and no other is.
pub proof fn lemma_numeral_value_zero(s: Seq<char>, max: nat)
    ensures
        numeral_value(s, max) == Some(0nat) <==> all_zeros(s),
{
    if all_zeros(s) {
        assert forall|i: int| 0 <= i < s.len() implies is_digit(#[trigger] s[i]) by {
            assert(s[i] == '0');
        }
    }
    if all_digits(s) {
        lemma_decimal_value_zero(s);
    }
}

/// A text is read as the number zero exactly when it writes zero.
pub proof fn lemma_unsigned_value_zero(s: Seq<char>, max: nat)
    ensures
        unsigned_value(s, max) == Some(0nat) <==> writes_zero(s),
{
    if s.len() > 0 && s.first() == '+' {
        lemma_numeral_value_zero(s.drop_first(), max);
    } else {
        lemma_numeral_value_zero(s, max);
    }
}

/// A prefix of a digit run never denotes more than the whole run.
pub proof fn lemma_decimal_value_of_prefix(s: Seq<char>, k: int)
    requires
        0 <= k <= s.len(),
    ensures
        decimal_value(s.take(k)) <= decimal_value(s),
    decreases s.len() - k,
{
    if k < s.len() {
        lemma_decimal_value_of_prefix(s.drop_last(), k);
        assert(s.drop_last().take(k) =~= s.take(k));
    } else {
        assert(s.take(k) =~= s);
    }
}

/// Reads `text` as a run of digits denoting at most `max`.
pub fn parse_digits(text: &str, max: u64) -> (value: Option<u64>)
    ensures
        match value {
            Some(v) => numeral_value(text@, max as nat) == Some(v as nat),
            None => numeral_value(text@, max as nat) is None,
        },
{
    broadcast use vstd::string::group_string_axioms;

    let mut acc: u64 = 0;
    let mut any = false;
    assert(text@.take(0) =~= Seq::<char>::empty());
    for c in it: text.chars()
        invariant
            it.seq() == text@,
            any == (it.index() > 0),
            all_digits(text@.take(it.index() as int)),
            acc == decimal_value(text@.take(it.index() as int)),
            acc <= max,
    {
        let ghost at = it.index() as int;
        assert(text@.take(at + 1).drop_last() =~= text@.take(at));
        if !('0' <= c && c <= '9') {
            assert(!is_digit(text@[at]));
            return None;
        }
        let digit: u64 = (c as u32 - '0' as u32) as u64;
        let next: u128 = acc as u128 * 10 + digit as u128;
        if next > max as u128 {
            proof {
                lemma_decimal_value_of_prefix(text@, at + 1);
            }
            return None;
        }
        acc = next as u64;
        any = true;
    }
    assert(text@.take(text@.len() as int) =~= text@);
    if any {
        Some(acc)
    } else {
        None
    }
}

/// Reads `text` as a number of `0..=max`.
pub fn parse_unsigned(text: &str, max: u64) -> (value: Option<u64>)
    ensures
        match value {
            Some(v) => unsigned_value(text@, max as nat) == Some(v as nat),
            None => unsigned_value(text@, max as nat) is None,
        },
{
    let len: usize = text.unicode_len();
    if len > 0 && text.get_char(0) == '+' {
        let digits = text.substring_char(1, len);
        assert(digits@ =~= text@.drop_first());
        parse_digits(digits, max)
    } else {
        parse_digits(text, max)
    }
}

/// Reads `text` as a number of `0..=255`.
pub fn parse_u8(text: &str) -> (value: Option<u8>)
    ensures
        match value {
            Some(v) => unsigned_value(text@, u8::MAX as nat) == Some(v as nat),
            None => unsigned_value(text@, u8::MAX as nat) is None,
        },
{
    match parse_unsigned(text, u8::MAX as u64) {
        Some(v) => Some(v as u8),
        None => None,
    }
}

/// Reads `text` as a number of `0..=65535`.
pub fn parse_u16(text: &str) -> (value: Option<u16>)
    ensures
        match value {
            Some(v) => unsigned_value(text@, u16::MAX as nat) == Some(v as nat),
            None => unsigned_value(text@, u16::MAX as nat) is None,
        },
{
    match parse_unsigned(text, u16::MAX as u64) {
        Some(v) => Some(v as u16),
        None => None,
    }
}

/// Reads `text` as a number of `0..=4294967295`.
pub fn parse_u32(text: &str) -> (value: Option<u32>)
    ensures
        match value {
            Some(v) => unsigned_value(text@, u32::MAX as nat) == Some(v as nat),
            None => unsigned_value(text@, u32::MAX as nat) is None,
        },
{
    match parse_unsigned(text, u32::MAX as u64) {
        Some(v) => Some(v as u32),
        None => None,
    }
}

/// Reads `text` as a number that fits a `usize`.
pub fn parse_usize(text: &str) -> (value: Option<usize>)
    ensures
        match value {
            Some(v) => unsigned_value(text@, usize::MAX as nat) == Some(v as nat),
            None => unsigned_value(text@, usize::MAX as nat) is None,
        },
{
    match parse_unsigned(text, usize::MAX as u64) {
        Some(v) => Some(v as usize),
        None => None,
    }
}

/// Reads `text` as a number of `-2147483648..=2147483647`.
pub fn parse_i32(text: &str) -> (value: Option<i32>)
    ensures
        match value {
            Some(v) => signed_value(text@, i32::MIN as int, i32::MAX as int) == Some(v as int),
            None => signed_value(text@, i32::MIN as int, i32::MAX as int) is None,
        },
{
    let len: usize = text.unicode_len();
    if len > 0 && text.get_char(0) == '-' {
        let digits = text.substring_char(1, len);
        assert(digits@ =~= text@.drop_first());
        match parse_digits(digits, 2147483648) {
            Some(m) => Some((-(m as i64)) as i32),
            None => None,
        }
    } else {
        match parse_unsigned(text, i32::MAX as u64) {
            Some(m) => Some(m as i32),
            None => None,
        }
    }
}

} // verus!
