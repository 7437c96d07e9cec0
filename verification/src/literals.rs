//! Group of literal rules: null, booleans, the four integer radices, the
//! exponential form, single-quoted strings and identifiers.
//!
//! Each rule consumes a maximal valid prefix of its input and returns the
//! recognized value together with the unconsumed remainder, or fails without
//! consuming anything.

use vstd::prelude::*;

use crate::digits::base_value;
use crate::digits::digit_run_end;
use crate::digits::digits_to_u64;
use crate::digits::is_digit;
use crate::digits::lemma_digit_run_end;
use crate::digits::scan_digits;
use crate::errors::outcome_matches;
use crate::errors::ParseError;
use crate::errors::StringError;

verus! {

/// The shared tail of the radix rules: the maximal digit run of `base`
/// starting at `start`, converted by positional weight.  No digit at all,
/// or a value beyond 64 bits, is a malformed match.
pub open spec fn spec_radix_digits(s: Seq<u8>, start: int, base: int) -> Result<
    (Seq<u8>, u64),
    ParseError,
>
    recommends
        0 <= start <= s.len(),
{
    let e = digit_run_end(s, start, base);
    if e == start {
        Err(ParseError::MalformedMatch)
    } else if base_value(s.subrange(start, e), base) > u64::MAX {
        Err(ParseError::MalformedMatch)
    } else {
        Ok((s.subrange(e, s.len() as int), base_value(s.subrange(start, e), base) as u64))
    }
}

/// Runs the digit run of `base` from `start` and converts it, as
/// `spec_radix_digits` describes.
pub(crate) fn radix_digits(input: &[u8], start: usize, base: u64) -> (r: Result<
    (&[u8], u64),
    ParseError,
>)
    requires
        start <= input@.len(),
        base == 2 || base == 8 || base == 10 || base == 16,
    ensures
        outcome_matches(r, spec_radix_digits(input@, start as int, base as int)),
{
    let e = scan_digits(input, start, base);
    proof {
        lemma_digit_run_end(input@, start as int, base as int);
    }
    if e == start {
        return Err(ParseError::MalformedMatch);
    }
    match digits_to_u64(input, start, e, base) {
        Some(v) => Ok((&input[e..input.len()], v)),
        None => Err(ParseError::MalformedMatch),
    }
}

/// A binary integer: `0`, then `b` or `B`, then at least one binary digit.
/// Absent digits after the prefix, or a value beyond 64 bits, are malformed.
pub open spec fn spec_binary(s: Seq<u8>) -> Result<(Seq<u8>, u64), ParseError> {
    if s.len() >= 2 && s[0] == 48u8 && (s[1] == 98u8 || s[1] == 66u8) {
        spec_radix_digits(s, 2, 2)
    } else {
        Err(ParseError::NoMatch)
    }
}

pub fn binary(input: &[u8]) -> (r: Result<(&[u8], u64), ParseError>)
    ensures
        outcome_matches(r, spec_binary(input@)),
{
    if input.len() >= 2 && input[0] == 48 && (input[1] == 98 || input[1] == 66) {
        radix_digits(input, 2, 2)
    } else {
        Err(ParseError::NoMatch)
    }
}

/// An octal integer: `0`, then at least one octal digit.  A lone `0`, a
/// non-octal digit after it, or a value beyond 64 bits are malformed.
pub open spec fn spec_octal(s: Seq<u8>) -> Result<(Seq<u8>, u64), ParseError> {
    if s.len() >= 1 && s[0] == 48u8 {
        spec_radix_digits(s, 1, 8)
    } else {
        Err(ParseError::NoMatch)
    }
}

pub fn octal(input: &[u8]) -> (r: Result<(&[u8], u64), ParseError>)
    ensures
        outcome_matches(r, spec_octal(input@)),
{
    if input.len() >= 1 && input[0] == 48 {
        radix_digits(input, 1, 8)
    } else {
        Err(ParseError::NoMatch)
    }
}

/// A hexadecimal integer: `0`, then `x` or `X`, then at least one hex digit
/// of either case.
pub open spec fn spec_hexadecimal(s: Seq<u8>) -> Result<(Seq<u8>, u64), ParseError> {
    if s.len() >= 2 && s[0] == 48u8 && (s[1] == 120u8 || s[1] == 88u8) {
        spec_radix_digits(s, 2, 16)
    } else {
        Err(ParseError::NoMatch)
    }
}

pub fn hexadecimal(input: &[u8]) -> (r: Result<(&[u8], u64), ParseError>)
    ensures
        outcome_matches(r, spec_hexadecimal(input@)),
{
    if input.len() >= 2 && input[0] == 48 && (input[1] == 120 || input[1] == 88) {
        radix_digits(input, 2, 16)
    } else {
        Err(ParseError::NoMatch)
    }
}

/// A decimal integer: a digit `1`-`9`, then any further decimal digits.  A
/// bare `0`, or a leading `0` before digits, belongs to the octal rule, not
/// to this one.
pub open spec fn spec_decimal(s: Seq<u8>) -> Result<(Seq<u8>, u64), ParseError> {
    if s.len() >= 1 && 49 <= s[0] <= 57 {
        spec_radix_digits(s, 0, 10)
    } else {
        Err(ParseError::NoMatch)
    }
}

pub fn decimal(input: &[u8]) -> (r: Result<(&[u8], u64), ParseError>)
    ensures
        outcome_matches(r, spec_decimal(input@)),
{
    if input.len() >= 1 && 49 <= input[0] && input[0] <= 57 {
        radix_digits(input, 0, 10)
    } else {
        Err(ParseError::NoMatch)
    }
}

/// Law: formatting a positive 64-bit number in decimal and parsing the
/// digits as decimal returns the number, with an empty remainder.
pub proof fn lemma_decimal_round_trip(n: u64)
    requires
        n >= 1,
    ensures
        spec_decimal(crate::digits::dec_digits(n as int)) == Ok::<(Seq<u8>, u64), ParseError>(
            (Seq::<u8>::empty(), n),
        ),
{
    let s = crate::digits::dec_digits(n as int);
    crate::digits::lemma_dec_digits(n as int);
    crate::digits::lemma_digit_run_full(s, 0, 10);
    assert(s.subrange(0, s.len() as int) =~= s);
    assert(s.subrange(s.len() as int, s.len() as int) =~= Seq::<u8>::empty());
}

/// The exact text `null`.  The rule carries no value; it yields `None` and
/// the input after the keyword.
pub open spec fn spec_null(s: Seq<u8>) -> Result<(Seq<u8>, Option<()>), ParseError> {
    if s.len() >= 4 && s[0] == 110u8 && s[1] == 117u8 && s[2] == 108u8 && s[3] == 108u8 {
        Ok((s.subrange(4, s.len() as int), None))
    } else {
        Err(ParseError::NoMatch)
    }
}

pub fn null(input: &[u8]) -> (r: Result<(&[u8], Option<()>), ParseError>)
    ensures
        outcome_matches(r, spec_null(input@)),
{
    if input.len() >= 4 && input[0] == 110 && input[1] == 117 && input[2] == 108 && input[3]
        == 108 {
        Ok((&input[4..input.len()], None))
    } else {
        Err(ParseError::NoMatch)
    }
}

/// The exact text `true` or `false`, valued accordingly.
pub open spec fn spec_boolean(s: Seq<u8>) -> Result<(Seq<u8>, bool), ParseError> {
    if s.len() >= 4 && s[0] == 116u8 && s[1] == 114u8 && s[2] == 117u8 && s[3] == 101u8 {
        Ok((s.subrange(4, s.len() as int), true))
    } else if s.len() >= 5 && s[0] == 102u8 && s[1] == 97u8 && s[2] == 108u8 && s[3] == 115u8
        && s[4] == 101u8 {
        Ok((s.subrange(5, s.len() as int), false))
    } else {
        Err(ParseError::NoMatch)
    }
}

pub fn boolean(input: &[u8]) -> (r: Result<(&[u8], bool), ParseError>)
    ensures
        outcome_matches(r, spec_boolean(input@)),
{
    if input.len() >= 4 && input[0] == 116 && input[1] == 114 && input[2] == 117 && input[3]
        == 101 {
        Ok((&input[4..input.len()], true))
    } else if input.len() >= 5 && input[0] == 102 && input[1] == 97 && input[2] == 108
        && input[3] == 115 && input[4] == 101 {
        Ok((&input[5..input.len()], false))
    } else {
        Err(ParseError::NoMatch)
    }
}

/// Head bytes of an identifier: ASCII letters, the underscore, and every
/// byte at or above 0x7f.  Classification is purely by byte, never by code
/// point.
pub open spec fn is_identifier_head(b: u8) -> bool {
    (97 <= b <= 122) || (65 <= b <= 90) || b == 95 || b >= 127
}

/// Tail bytes additionally allow ASCII digits.
pub open spec fn is_identifier_tail(b: u8) -> bool {
    is_identifier_head(b) || (48 <= b <= 57)
}

/// The first position at or after `i` that holds no identifier tail byte.
pub open spec fn identifier_end(s: Seq<u8>, i: int) -> int
    decreases s.len() - i,
    when 0 <= i <= s.len()
{
    if i < s.len() && is_identifier_tail(s[i]) {
        identifier_end(s, i + 1)
    } else {
        i
    }
}


/// An identifier: one head byte, then a maximal run of tail bytes.  The
/// value is the matched span itself.
pub open spec fn spec_identifier(s: Seq<u8>) -> Result<(Seq<u8>, Seq<u8>), ParseError> {
    if s.len() >= 1 && is_identifier_head(s[0]) {
        let e = identifier_end(s, 1);
        Ok((s.subrange(e, s.len() as int), s.subrange(0, e)))
    } else {
        Err(ParseError::NoMatch)
    }
}

fn is_identifier_head_byte(b: u8) -> (r: bool)
    ensures
        r == is_identifier_head(b),
{
    (97 <= b && b <= 122) || (65 <= b && b <= 90) || b == 95 || b >= 127
}

fn is_identifier_tail_byte(b: u8) -> (r: bool)
    ensures
        r == is_identifier_tail(b),
{
    is_identifier_head_byte(b) || (48 <= b && b <= 57)
}

pub fn identifier(input: &[u8]) -> (r: Result<(&[u8], &[u8]), ParseError>)
    ensures
        crate::errors::span_matches(r, spec_identifier(input@)),
{
    if input.len() >= 1 && is_identifier_head_byte(input[0]) {
        let mut j: usize = 1;
        while j < input.len() && is_identifier_tail_byte(input[j])
            invariant
                1 <= j <= input@.len(),
                identifier_end(input@, 1) == identifier_end(input@, j as int),
            decreases input@.len() - j,
        {
            proof {
                assert(identifier_end(input@, j as int) == identifier_end(input@, j + 1));
            }
            j = j + 1;
        }
        proof {
            assert(identifier_end(input@, j as int) == j as int);
        }
        Ok((&input[j..input.len()], &input[0..j]))
    } else {
        Err(ParseError::NoMatch)
    }
}

/// Scans the quoted body from position `i`, just past an opening quote.
/// On success: the index after the closing quote, and the content bytes with
/// escape pairs collapsed.  A backslash before a quote or a backslash stands
/// for that byte alone; a backslash before any other byte is kept verbatim
/// together with that byte, which is not examined further.  An input that
/// runs out before an unescaped quote has no valid closing character.
pub open spec fn spec_string_body(s: Seq<u8>, i: int) -> Result<(int, Seq<u8>), StringError>
    decreases s.len() - i,
    when 0 <= i <= s.len()
{
    if i >= s.len() {
        Err(StringError::InvalidClosingCharacter)
    } else if s[i] == 92u8 {
        if i + 1 >= s.len() {
            Err(StringError::InvalidClosingCharacter)
        } else if s[i + 1] == 39u8 || s[i + 1] == 92u8 {
            match spec_string_body(s, i + 2) {
                Ok((e, tail)) => Ok((e, seq![s[i + 1]] + tail)),
                Err(err) => Err(err),
            }
        } else {
            match spec_string_body(s, i + 2) {
                Ok((e, tail)) => Ok((e, seq![s[i], s[i + 1]] + tail)),
                Err(err) => Err(err),
            }
        }
    } else if s[i] == 39u8 {
        Ok((i + 1, Seq::empty()))
    } else {
        match spec_string_body(s, i + 1) {
            Ok((e, tail)) => Ok((e, seq![s[i]] + tail)),
            Err(err) => Err(err),
        }
    }
}

/// A single-quoted string: at least two bytes, an opening quote, the quoted
/// body, and the closing quote.  The decoded content must be valid UTF-8;
/// the value is its text.
pub open spec fn spec_string(s: Seq<u8>) -> Result<(Seq<u8>, Seq<char>), StringError> {
    if s.len() < 2 {
        Err(StringError::TooShort)
    } else if s[0] != 39u8 {
        Err(StringError::InvalidOpeningCharacter)
    } else {
        match spec_string_body(s, 1) {
            Ok((e, content)) => if vstd::utf8::valid_utf8(content) {
                Ok((s.subrange(e, s.len() as int), vstd::utf8::decode_utf8(content)))
            } else {
                Err(StringError::InvalidEncoding)
            },
            Err(err) => Err(err),
        }
    }
}

/// Relies on `String::from_utf8`: it succeeds exactly when the bytes are
/// valid UTF-8, and the returned string then holds exactly those bytes.
#[verifier::external_body]
fn vec_to_string(bytes: Vec<u8>) -> (r: Option<String>)
    ensures
        r is Some <==> vstd::utf8::valid_utf8(bytes@),
        r matches Some(s) ==> vstd::utf8::encode_utf8(s@) == bytes@,
{
    match String::from_utf8(bytes) {
        Ok(s) => Some(s),
        Err(_) => None,
    }
}

/// A single-quoted string, as `spec_string` describes.
pub fn string(input: &[u8]) -> (r: Result<(&[u8], String), StringError>)
    ensures
        crate::errors::string_matches(r, spec_string(input@)),
{
    if input.len() < 2 {
        return Err(StringError::TooShort);
    }
    if input[0] != 39 {
        return Err(StringError::InvalidOpeningCharacter);
    }
    let mut content: Vec<u8> = Vec::new();
    let mut i: usize = 1;
    loop
        invariant
            input@.len() >= 2,
            input@[0] == 39u8,
            1 <= i <= input@.len(),
            match spec_string_body(input@, i as int) {
                Ok((e, tail)) => spec_string_body(input@, 1) == Ok::<(int, Seq<u8>), StringError>(
                    (e, content@ + tail),
                ),
                Err(err) => spec_string_body(input@, 1) == Err::<(int, Seq<u8>), StringError>(err),
            },
        decreases input@.len() - i,
    {
        if i >= input.len() {
            return Err(StringError::InvalidClosingCharacter);
        }
        let b = input[i];
        if b == 92 {
            if i + 1 >= input.len() {
                return Err(StringError::InvalidClosingCharacter);
            }
            let nb = input[i + 1];
            let ghost old_content = content@;
            if nb == 39 || nb == 92 {
                content.push(nb);
                proof {
                    if let Ok((e, tail)) = spec_string_body(input@, i + 2) {
                        assert(old_content + (seq![nb] + tail) =~= content@ + tail);
                    }
                }
            } else {
                content.push(b);
                content.push(nb);
                proof {
                    if let Ok((e, tail)) = spec_string_body(input@, i + 2) {
                        assert(old_content + (seq![b, nb] + tail) =~= content@ + tail);
                    }
                }
            }
            i = i + 2;
        } else if b == 39 {
            proof {
                assert(content@ + Seq::<u8>::empty() =~= content@);
            }
            let rest = &input[i + 1..input.len()];
            let ghost content_bytes = content@;
            match vec_to_string(content) {
                Some(text) => {
                    proof {
                        broadcast use vstd::utf8::encode_utf8_decode_utf8;

                        assert(vstd::utf8::decode_utf8(vstd::utf8::encode_utf8(text@)) == text@);
                        assert(vstd::utf8::decode_utf8(content_bytes) == text@);
                    }
                    return Ok((rest, text));
                },
                None => {
                    return Err(StringError::InvalidEncoding);
                },
            }
        } else {
            let ghost old_content = content@;
            content.push(b);
            proof {
                if let Ok((e, tail)) = spec_string_body(input@, i + 1) {
                    assert(old_content + (seq![b] + tail) =~= content@ + tail);
                }
            }
            i = i + 1;
        }
    }
}

/// The end of the optional exponent part beginning at `m`: it moves past
/// `e` or `E`, an optional sign, and the digit run, but only when at least
/// one digit stands there; otherwise nothing of it is consumed.
pub open spec fn exponent_end(s: Seq<u8>, m: int) -> int
    recommends
        0 <= m <= s.len(),
{
    if m < s.len() && (s[m] == 101u8 || s[m] == 69u8) {
        let ds: int = if m + 1 < s.len() && (s[m + 1] == 43u8 || s[m + 1] == 45u8) {
            m + 2
        } else {
            m + 1
        };
        let de = digit_run_end(s, ds, 10);
        if de > ds {
            de
        } else {
            m
        }
    } else {
        m
    }
}

/// The exponential form: an integer part, a mandatory dot, and either a
/// fractional digit run or a nonempty integer part, then the optional
/// exponent.  The value is the matched span; turning it into a float is the
/// caller's affair.
pub open spec fn spec_exponential(s: Seq<u8>) -> Result<(Seq<u8>, Seq<u8>), ParseError> {
    let d1 = digit_run_end(s, 0, 10);
    if d1 < s.len() && s[d1] == 46u8 {
        let d2 = digit_run_end(s, d1 + 1, 10);
        if d2 > d1 + 1 {
            let e = exponent_end(s, d2);
            Ok((s.subrange(e, s.len() as int), s.subrange(0, e)))
        } else if d1 > 0 {
            let e = exponent_end(s, d1 + 1);
            Ok((s.subrange(e, s.len() as int), s.subrange(0, e)))
        } else {
            Err(ParseError::NoMatch)
        }
    } else {
        Err(ParseError::NoMatch)
    }
}

pub fn exponential(input: &[u8]) -> (r: Result<(&[u8], &[u8]), ParseError>)
    ensures
        crate::errors::span_matches(r, spec_exponential(input@)),
{
    let d1 = scan_digits(input, 0, 10);
    proof {
        lemma_digit_run_end(input@, 0, 10);
    }
    if d1 < input.len() && input[d1] == 46 {
        let d2 = scan_digits(input, d1 + 1, 10);
        let mantissa_end: usize = if d2 > d1 + 1 {
            d2
        } else if d1 > 0 {
            d1 + 1
        } else {
            return Err(ParseError::NoMatch);
        };
        let e = exponent_scan(input, mantissa_end);
        Ok((&input[e..input.len()], &input[0..e]))
    } else {
        Err(ParseError::NoMatch)
    }
}

/// Scans the optional exponent part, as `exponent_end` describes.
fn exponent_scan(input: &[u8], m: usize) -> (e: usize)
    requires
        m <= input@.len(),
    ensures
        e == exponent_end(input@, m as int),
        m <= e <= input@.len(),
{
    if m < input.len() && (input[m] == 101 || input[m] == 69) {
        let ds: usize = if m + 1 < input.len() && (input[m + 1] == 43 || input[m + 1] == 45) {
            m + 2
        } else {
            m + 1
        };
        let de = scan_digits(input, ds, 10);
        if de > ds {
            de
        } else {
            m
        }
    } else {
        m
    }
}

} // verus!
