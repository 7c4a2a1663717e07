//! Reading an operand from its decimal text.

use crate::error::ModexpError;
use vstd::prelude::*;
use vstd::string::{is_ascii_spec_bytes, StringSliceAdditionalSpecFns};
use vstd::utf8::is_ascii_chars;

verus! {

/// The byte of the plus sign.
const PLUS: u8 = 43;

/// The byte of the digit zero.
const DIGIT_ZERO: u8 = 48;

/// The byte of the digit nine.
const DIGIT_NINE: u8 = 57;

/// Whether `c` is one of the ten ASCII decimal digits.
pub open spec fn is_digit(c: char) -> bool {
    '0' <= c <= '9'
}

/// The number that a decimal digit stands for; zero for any other character.
pub open spec fn digit_value(c: char) -> nat {
    if is_digit(c) {
        (c as int - '0' as int) as nat
    } else {
        0
    }
}

/// Whether every character of `s` is a decimal digit.
pub open spec fn all_digits(s: Seq<char>) -> bool {
    forall|i: int| 0 <= i < s.len() ==> is_digit(#[trigger] s[i])
}

/// The number written by a run of decimal digits, most significant first.
/// The empty run stands for zero.
pub open spec fn decimal_value(digits: Seq<char>) -> nat
    decreases digits.len(),
{
    if digits.len() == 0 {
        0
    } else {
        decimal_value(digits.drop_last()) * 10 + digit_value(digits.last())
    }
}

/// The text without one leading plus sign, if it has one.
pub open spec fn without_sign(s: Seq<char>) -> Seq<char> {
    if s.len() > 0 && s[0] == '+' {
        s.subrange(1, s.len() as int)
    } else {
        s
    }
}

/// What `parsenum` answers on each text. A text is accepted when, after an
/// optional leading `+`, it is a non-empty run of decimal digits whose
/// value fits in 64 bits; leading zeros are allowed. Everything else,
/// a minus sign and surrounding blanks included, is a parse failure.
pub open spec fn parse_spec(s: Seq<char>) -> Result<u64, ModexpError> {
    let digits = without_sign(s);
    if digits.len() > 0 && all_digits(digits) && decimal_value(digits) <= u64::MAX {
        Ok(decimal_value(digits) as u64)
    } else {
        Err(ModexpError::Parse)
    }
}

/// A run of digits is worth at least as much as any of its prefixes.
proof fn lemma_prefix_value(digits: Seq<char>, k: int)
    requires
        0 <= k <= digits.len(),
    ensures
        decimal_value(digits.subrange(0, k)) <= decimal_value(digits),
    decreases digits.len(),
{
    if k == digits.len() {
        assert(digits.subrange(0, k) =~= digits);
    } else {
        lemma_prefix_value(digits.drop_last(), k);
        assert(digits.drop_last().subrange(0, k) =~= digits.subrange(0, k));
    }
}

/// Appending one character to a run multiplies its value by ten and adds
/// the character's digit.
proof fn lemma_extend_value(digits: Seq<char>, k: int)
    requires
        0 <= k < digits.len(),
    ensures
        decimal_value(digits.subrange(0, k + 1)) == decimal_value(digits.subrange(0, k)) * 10
            + digit_value(digits[k]),
{
    let longer = digits.subrange(0, k + 1);
    assert(longer.drop_last() =~= digits.subrange(0, k));
    assert(longer.last() == digits[k]);
}

/// Text made of digits behind an optional plus sign is ASCII.
proof fn lemma_digits_are_ascii(s: Seq<char>)
    requires
        all_digits(without_sign(s)),
    ensures
        is_ascii_chars(s),
{
    let digits = without_sign(s);
    assert forall|i: int| 0 <= i < s.len() implies '\0' <= #[trigger] s[i] <= '\u{7f}' by {
        if s[0] == '+' {
            if i > 0 {
                assert(is_digit(digits[i - 1]));
            }
        } else {
            assert(is_digit(digits[i]));
        }
    }
}

/// Reads a `u64` from its decimal text.
///
/// The whole text must be the number: an optional `+`, then one or more
/// decimal digits, with a value of at most `u64::MAX`.
pub fn parsenum(s: &str) -> (result: Result<u64, ModexpError>)
    ensures
        result == parse_spec(s@),
{
    if !s.is_ascii() {
        proof {
            if all_digits(without_sign(s@)) {
                lemma_digits_are_ascii(s@);
            }
        }
        return Err(ModexpError::Parse);
    }
    let bytes = s.as_bytes();
    let n: usize = bytes.len();
    proof {
        is_ascii_spec_bytes(s);
    }
    let start: usize = if n > 0 && bytes[0] == PLUS {
        1
    } else {
        0
    };
    let ghost digits = without_sign(s@);
    assert(digits =~= s@.subrange(start as int, n as int));
    if start == n {
        return Err(ModexpError::Parse);
    }
    let mut value: u64 = 0;
    let mut i: usize = start;
    while i < n
        invariant
            start <= i <= n,
            n == s@.len(),
            s.is_ascii(),
            bytes@.len() == n,
            forall|k: int| 0 <= k < n ==> #[trigger] bytes@[k] == s@[k] as u8,
            digits == s@.subrange(start as int, n as int),
            digits == without_sign(s@),
            all_digits(digits.subrange(0, i - start)),
            value == decimal_value(digits.subrange(0, i - start)),
        decreases n - i,
    {
        let byte: u8 = bytes[i];
        if byte < DIGIT_ZERO || byte > DIGIT_NINE {
            assert(!is_digit(digits[i - start]));
            return Err(ModexpError::Parse);
        }
        let digit: u64 = (byte - DIGIT_ZERO) as u64;
        proof {
            assert(is_digit(digits[i - start]));
            assert(digit == digit_value(digits[i - start]));
            lemma_extend_value(digits, i - start);
        }
        if value > (u64::MAX - digit) / 10 {
            proof {
                lemma_prefix_value(digits, i - start + 1);
            }
            return Err(ModexpError::Parse);
        }
        value = value * 10 + digit;
        i += 1;
    }
    assert(digits.subrange(0, n - start) =~= digits);
    Ok(value)
}

} // verus!
