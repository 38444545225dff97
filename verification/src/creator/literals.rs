//! Numeric literals in definition tokens: unsigned integers in decimal or
//! hexadecimal, and the floating-point syntax that `f64::from_str` accepts.

use vstd::prelude::*;
use vstd::string::StringSliceAdditionalSpecFns;
use crate::bytes::{
    BYTE_DIGIT_0, BYTE_DIGIT_9, BYTE_DOT, BYTE_LOWER_A, BYTE_LOWER_F, BYTE_LOWER_Z, BYTE_MINUS,
    BYTE_PLUS, BYTE_UPPER_A, BYTE_UPPER_F, BYTE_UPPER_Z, is_digit, is_valid_utf8, lossy_string, utf8_lossy,
};
use vstd::utf8::valid_utf8;
use crate::creator::definitions::{FloatValue, SpecFloatValue};

verus! {

/// The value of one digit in the given radix (10 or 16), if it is one.
pub open spec fn digit_value(b: u8, radix: nat) -> Option<nat> {
    if BYTE_DIGIT_0 <= b <= BYTE_DIGIT_9 {
        Some((b - BYTE_DIGIT_0) as nat)
    } else if radix == 16 && BYTE_LOWER_A <= b <= BYTE_LOWER_F {
        Some((b - BYTE_LOWER_A + 10) as nat)
    } else if radix == 16 && BYTE_UPPER_A <= b <= BYTE_UPPER_F {
        Some((b - BYTE_UPPER_A + 10) as nat)
    } else {
        None
    }
}

/// The value of a sequence of digits; `None` when one of them is no digit.
pub open spec fn digits_value(s: Seq<u8>, radix: nat) -> Option<nat>
    decreases s.len(),
{
    if s.len() == 0 {
        Some(0)
    } else {
        match (digits_value(s.drop_last(), radix), digit_value(s.last(), radix)) {
            (Some(a), Some(d)) => Some(a * radix + d),
            _ => None,
        }
    }
}

/// What `from_str_radix` of an unsigned integer type returns for `s`: an
/// optional `+`, at least one digit, and a value that fits `max`.
pub open spec fn parse_unsigned(s: Seq<u8>, radix: nat, max: nat) -> Option<nat> {
    let start: int = if s.len() > 0 && s[0] == BYTE_PLUS {
        1
    } else {
        0
    };
    let digits = s.subrange(start, s.len() as int);
    if digits.len() == 0 {
        None
    } else {
        match digits_value(digits, radix) {
            Some(v) => if v <= max {
                Some(v)
            } else {
                None
            },
            None => None,
        }
    }
}

proof fn lemma_digits_value_monotone(s: Seq<u8>, radix: nat, i: int)
    requires
        radix >= 1,
        0 <= i <= s.len(),
        digits_value(s, radix) is Some,
    ensures
        digits_value(s.subrange(0, i), radix) is Some,
        digits_value(s.subrange(0, i), radix).unwrap() <= digits_value(s, radix).unwrap(),
    decreases s.len(),
{
    if i == s.len() {
        assert(s.subrange(0, i) =~= s);
    } else {
        assert(s.drop_last() =~= s.subrange(0, s.len() - 1));
        lemma_digits_value_monotone(s.drop_last(), radix, i);
        assert(s.drop_last().subrange(0, i) =~= s.subrange(0, i));
        let a = digits_value(s.drop_last(), radix).unwrap();
        let d = digit_value(s.last(), radix).unwrap();
        assert(a * radix + d >= a) by (nonlinear_arith)
            requires
                radix >= 1,
                d >= 0,
                a >= 0,
        ;
    }
}

/// Parses an unsigned integer with optional `+` sign in radix 10 or 16, as
/// `from_str_radix` of an integer type whose largest value is `max` does.
#[verifier::rlimit(40)]
pub fn parse_unsigned_bytes(s: &[u8], radix: u64, max: u64) -> (r: Option<u64>)
    requires
        radix == 10 || radix == 16,
    ensures
        parse_unsigned(s@, radix as nat, max as nat) == (match r {
            Some(v) => Some(v as nat),
            None => None::<nat>,
        }),
{
    let len = s.len();
    let start: usize = if len > 0 && s[0] == BYTE_PLUS {
        1
    } else {
        0
    };
    let ghost digits = s@.subrange(start as int, len as int);
    if start == len {
        return None;
    }
    let mut value: u64 = 0;
    let mut i = start;
    assert(s@.subrange(start as int, start as int) =~= Seq::<u8>::empty());
    while i < len
        invariant
            start <= i <= len == s@.len(),
            start < len,
            start as int == (if s@.len() > 0 && s@[0] == BYTE_PLUS {
                1int
            } else {
                0int
            }),
            radix == 10 || radix == 16,
            digits == s@.subrange(start as int, len as int),
            digits_value(s@.subrange(start as int, i as int), radix as nat) == Some(value as nat),
            value <= max,
        decreases len - i,
    {
        let b = s[i];
        let d: u64 = if BYTE_DIGIT_0 <= b && b <= BYTE_DIGIT_9 {
            (b - BYTE_DIGIT_0) as u64
        } else if radix == 16 && BYTE_LOWER_A <= b && b <= BYTE_LOWER_F {
            (b - BYTE_LOWER_A + 10) as u64
        } else if radix == 16 && BYTE_UPPER_A <= b && b <= BYTE_UPPER_F {
            (b - BYTE_UPPER_A + 10) as u64
        } else {
            proof {
                let pre = s@.subrange(start as int, i + 1);
                assert(pre.drop_last() =~= s@.subrange(start as int, i as int));
                assert(digits_value(pre, radix as nat) is None);
                if digits_value(digits, radix as nat) is Some {
                    lemma_digits_value_monotone(digits, radix as nat, i + 1 - start);
                    assert(digits.subrange(0, i + 1 - start) =~= pre);
                }
            }
            return None;
        };
        let ghost pre = s@.subrange(start as int, i + 1);
        assert(pre.drop_last() =~= s@.subrange(start as int, i as int));
        assert(digits_value(pre, radix as nat) == Some((value * radix + d) as nat));
        match value.checked_mul(radix) {
            Some(m) => match m.checked_add(d) {
                Some(n) => {
                    if n > max {
                        proof {
                            if digits_value(digits, radix as nat) is Some {
                                lemma_digits_value_monotone(digits, radix as nat, i + 1 - start);
                                assert(digits.subrange(0, i + 1 - start) =~= pre);
                            }
                        }
                        return None;
                    }
                    value = n;
                },
                None => {
                    proof {
                        if digits_value(digits, radix as nat) is Some {
                            lemma_digits_value_monotone(digits, radix as nat, i + 1 - start);
                            assert(digits.subrange(0, i + 1 - start) =~= pre);
                        }
                    }
                    return None;
                },
            },
            None => {
                proof {
                    assert(value * radix + d >= value * radix) by (nonlinear_arith)
                        requires
                            d >= 0,
                    ;
                    if digits_value(digits, radix as nat) is Some {
                        lemma_digits_value_monotone(digits, radix as nat, i + 1 - start);
                        assert(digits.subrange(0, i + 1 - start) =~= pre);
                    }
                }
                return None;
            },
        }
        i += 1;
    }
    Some(value)
}

/// The index of the first byte at or after `i` that is no decimal digit.
pub open spec fn digits_end(s: Seq<u8>, i: int) -> int
    decreases s.len() - i,
{
    if 0 <= i < s.len() && is_digit(s[i]) {
        digits_end(s, i + 1)
    } else {
        i
    }
}

proof fn lemma_digits_end_bounds(s: Seq<u8>, i: int)
    requires
        0 <= i <= s.len(),
    ensures
        i <= digits_end(s, i) <= s.len(),
    decreases s.len() - i,
{
    if i < s.len() && is_digit(s[i]) {
        lemma_digits_end_bounds(s, i + 1);
    }
}

/// A byte in lower case (only ASCII letters change).
pub open spec fn ascii_lower(b: u8) -> u8 {
    if BYTE_UPPER_A <= b <= BYTE_UPPER_Z {
        (b + 32) as u8
    } else {
        b
    }
}

/// Whether `s` equals the lower-case ASCII word `word` when lower-cased.
pub open spec fn eq_ignore_case(s: Seq<u8>, word: Seq<u8>) -> bool {
    s.len() == word.len() && forall|i: int| 0 <= i < s.len() ==> ascii_lower(#[trigger] s[i])
        == word[i]
}

/// Whether `b` (after an optional sign) is `inf`, `infinity` or `nan`, in any case.
pub open spec fn is_float_special(b: Seq<u8>) -> bool {
    eq_ignore_case(b, "inf".spec_bytes()) || eq_ignore_case(b, "infinity".spec_bytes())
        || eq_ignore_case(b, "nan".spec_bytes())
}

/// Whether `b[j..]` is a valid exponent after the `e`: an optional sign and at
/// least one digit, up to the end.
pub open spec fn is_float_exponent(b: Seq<u8>, j: int) -> bool {
    let k = if j < b.len() && (b[j] == BYTE_PLUS || b[j] == BYTE_MINUS) {
        j + 1
    } else {
        j
    };
    digits_end(b, k) > k && digits_end(b, k) == b.len()
}

/// Whether `b` is a decimal number: digits, an optional fraction (at least one
/// digit before or after the point), an optional exponent.
pub open spec fn is_float_number(b: Seq<u8>) -> bool {
    let i1 = digits_end(b, 0);
    let has_point = i1 < b.len() && b[i1] == BYTE_DOT;
    let i2 = if has_point {
        digits_end(b, i1 + 1)
    } else {
        i1
    };
    let frac_digits = if has_point {
        i2 - (i1 + 1)
    } else {
        0
    };
    (i1 > 0 || frac_digits > 0) && (i2 == b.len() || ((b[i2] == 101u8 || b[i2] == 69u8)
        && is_float_exponent(b, i2 + 1)))
}

/// Whether `f64::from_str` accepts `s`: an optional sign followed by a
/// decimal number or one of `inf`, `infinity`, `nan` (case-insensitive), as
/// std documents its grammar.
pub open spec fn is_float_literal(s: Seq<u8>) -> bool {
    let body = if s.len() > 0 && (s[0] == BYTE_PLUS || s[0] == BYTE_MINUS) {
        s.drop_first()
    } else {
        s
    };
    is_float_special(body) || is_float_number(body)
}

/// Whether `s` starts with `p`.
pub open spec fn seq_starts_with(s: Seq<u8>, p: Seq<u8>) -> bool {
    p.len() <= s.len() && s.subrange(0, p.len() as int) == p
}

/// What `convert_float_value` yields for a token: a decimal literal, or a
/// hexadecimal `u64` after `0x` or `-0x`.
pub open spec fn float_value_of(tok: Seq<u8>) -> Option<SpecFloatValue> {
    if is_float_literal(tok) {
        Some(SpecFloatValue::Decimal(tok))
    } else if seq_starts_with(tok, "-0x".spec_bytes()) {
        match parse_unsigned(tok.skip("-0x".spec_bytes().len() as int), 16, u64::MAX as nat) {
            Some(v) => Some(SpecFloatValue::NegativeHex(v as u64)),
            None => None,
        }
    } else if seq_starts_with(tok, "0x".spec_bytes()) {
        match parse_unsigned(tok.skip("0x".spec_bytes().len() as int), 16, u64::MAX as nat) {
            Some(v) => Some(SpecFloatValue::Hex(v as u64)),
            None => None,
        }
    } else {
        None
    }
}

/// The index of the first byte at or after `i` that is no decimal digit.
fn find_digits_end(s: &[u8], i: usize) -> (r: usize)
    requires
        i <= s@.len(),
    ensures
        r == digits_end(s@, i as int),
        i <= r <= s@.len(),
{
    let mut j = i;
    while j < s.len() && BYTE_DIGIT_0 <= s[j] && s[j] <= BYTE_DIGIT_9
        invariant
            i <= j <= s@.len(),
            digits_end(s@, j as int) == digits_end(s@, i as int),
        decreases s@.len() - j,
    {
        j += 1;
    }
    j
}

fn lower_byte(b: u8) -> (r: u8)
    ensures
        r == ascii_lower(b),
{
    if BYTE_UPPER_A <= b && b <= BYTE_UPPER_Z {
        b + 32
    } else {
        b
    }
}

fn equals_ignore_case(s: &[u8], word: &str) -> (r: bool)
    ensures
        r == eq_ignore_case(s@, word.spec_bytes()),
{
    let w = word.as_bytes();
    if s.len() != w.len() {
        return false;
    }
    let mut i: usize = 0;
    while i < s.len()
        invariant
            i <= s@.len() == w@.len(),
            w@ == word.spec_bytes(),
            forall|j: int| 0 <= j < i ==> ascii_lower(#[trigger] s@[j]) == w@[j],
        decreases s@.len() - i,
    {
        if lower_byte(s[i]) != w[i] {
            return false;
        }
        i += 1;
    }
    true
}

/// Whether `f64::from_str` accepts the token (see `is_float_literal`).
pub fn is_float_literal_bytes(s: &[u8]) -> (r: bool)
    ensures
        r == is_float_literal(s@),
{
    let (_, body) = if s.len() > 0 && (s[0] == BYTE_PLUS || s[0] == BYTE_MINUS) {
        s.split_at(1)
    } else {
        s.split_at(0)
    };
    proof {
        if s@.len() > 0 && (s@[0] == BYTE_PLUS || s@[0] == BYTE_MINUS) {
            assert(body@ =~= s@.drop_first());
        } else {
            assert(body@ =~= s@);
        }
    }
    if equals_ignore_case(body, "inf") || equals_ignore_case(body, "infinity")
        || equals_ignore_case(body, "nan") {
        return true;
    }
    let len = body.len();
    let i1 = find_digits_end(body, 0);
    let has_point = i1 < len && body[i1] == BYTE_DOT;
    let i2 = if has_point {
        find_digits_end(body, i1 + 1)
    } else {
        i1
    };
    let frac_digits = if has_point {
        i2 - (i1 + 1)
    } else {
        0
    };
    if !(i1 > 0 || frac_digits > 0) {
        return false;
    }
    if i2 == len {
        return true;
    }
    if body[i2] != 101u8 && body[i2] != 69u8 {
        return false;
    }
    let j = i2 + 1;
    let k = if j < len && (body[j] == BYTE_PLUS || body[j] == BYTE_MINUS) {
        j + 1
    } else {
        j
    };
    let e = find_digits_end(body, k);
    e > k && e == len
}

/// Whether `s` starts with the bytes of `prefix`.
fn has_prefix(s: &[u8], prefix: &str) -> (r: bool)
    ensures
        r == seq_starts_with(s@, prefix.spec_bytes()),
{
    crate::bytes::starts_with(s, prefix.as_bytes())
}

/// The message for a token that is no value where a floating-point number
/// is allowed.
pub open spec fn float_error(tok: Seq<u8>, context: Seq<char>) -> Seq<char> {
    if !valid_utf8(tok) {
        "Expected value in "@ + context + ", found invalid UTF-8"@
    } else {
        "Expected float value in "@ + context + ", got "@ + utf8_lossy(tok)
    }
}

/// Reads a value token where a floating-point number is allowed (see
/// `float_value_of`), or says why it is none.
pub fn convert_float_value(token: &[u8], context: &str) -> (r: Result<FloatValue, String>)
    ensures
        match r {
            Ok(v) => float_value_of(token@) == Some(v.deep_view()),
            Err(m) => float_value_of(token@) is None && m@ == float_error(token@, context@),
        },
{
    match float_value(token) {
        Some(v) => Ok(v),
        None => {
            if !is_valid_utf8(token) {
                let mut m = String::from_str("Expected value in ");
                m.append(context);
                m.append(", found invalid UTF-8");
                Err(m)
            } else {
                let mut m = String::from_str("Expected float value in ");
                m.append(context);
                m.append(", got ");
                m.append(lossy_string(token).as_str());
                Err(m)
            }
        },
    }
}

/// The value of a token where a floating-point number is allowed.
fn float_value(token: &[u8]) -> (r: Option<FloatValue>)
    ensures
        r.deep_view() == float_value_of(token@),
{
    if is_float_literal_bytes(token) {
        let text = crate::bytes::copy_range(token, 0, token.len());
        assert(text@ =~= token@);
        return Some(FloatValue::Decimal(text));
    }
    let token_len = token.len();
    let neg_hex = "-0x";
    let pos_hex = "0x";
    if has_prefix(token, neg_hex) {
        assert(neg_hex.spec_bytes().len() <= token@.len());
        let n = neg_hex.len();
        assert(n as int == neg_hex.spec_bytes().len());
        let (_, hex) = token.split_at(n);
        assert(hex@ =~= token@.skip(neg_hex.spec_bytes().len() as int));
        match parse_unsigned_bytes(hex, 16, u64::MAX) {
            Some(v) => Some(FloatValue::NegativeHex(v)),
            None => None,
        }
    } else if has_prefix(token, pos_hex) {
        assert(pos_hex.spec_bytes().len() <= token@.len());
        let n = pos_hex.len();
        assert(n as int == pos_hex.spec_bytes().len());
        let (_, hex) = token.split_at(n);
        assert(hex@ =~= token@.skip(pos_hex.spec_bytes().len() as int));
        match parse_unsigned_bytes(hex, 16, u64::MAX) {
            Some(v) => Some(FloatValue::Hex(v)),
            None => None,
        }
    } else {
        None
    }
}

} // verus!
