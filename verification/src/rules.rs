//! The grammar as a set of rules: integer operands, told apart by their
//! radix prefix, composed into the addition production.

use vstd::prelude::*;

use crate::ast::Addition;
use crate::ast::Term;
use crate::digits::digit_of;
use crate::digits::is_digit;
use crate::errors::outcome_matches;
use crate::errors::ParseError;
use crate::literals::binary;
use crate::literals::decimal;
use crate::literals::hexadecimal;
use crate::literals::octal;
use crate::literals::radix_digits;
use crate::literals::spec_binary;
use crate::literals::spec_decimal;
use crate::literals::spec_hexadecimal;
use crate::literals::spec_octal;
use crate::literals::spec_radix_digits;

verus! {

/// A run of decimal digits, leading zeros allowed, valued as a signed
/// 64-bit integer.  A value beyond that range is a malformed match.
pub open spec fn spec_i64_digit(s: Seq<u8>) -> Result<(Seq<u8>, i64), ParseError> {
    if s.len() >= 1 && is_digit(s[0], 10) {
        match spec_radix_digits(s, 0, 10) {
            Ok((rest, v)) => if v > i64::MAX as u64 {
                Err(ParseError::MalformedMatch)
            } else {
                Ok((rest, v as i64))
            },
            Err(e) => Err(e),
        }
    } else {
        Err(ParseError::NoMatch)
    }
}

pub fn i64_digit(input: &[u8]) -> (r: Result<(&[u8], i64), ParseError>)
    ensures
        outcome_matches(r, spec_i64_digit(input@)),
{
    if input.len() >= 1 && digit_of(input[0]) < 10 {
        match radix_digits(input, 0, 10) {
            Ok((rest, v)) => if v > i64::MAX as u64 {
                Err(ParseError::MalformedMatch)
            } else {
                Ok((rest, v as i64))
            },
            Err(e) => Err(e),
        }
    } else {
        Err(ParseError::NoMatch)
    }
}

/// An integer literal of any radix.  The rules are tried in the order
/// binary, hexadecimal, octal, decimal; their triggers are disjoint, so the
/// radix is settled by the prefix, never by the value.  A rule whose trigger
/// matched reports its own failure.
pub open spec fn spec_integer(s: Seq<u8>) -> Result<(Seq<u8>, u64), ParseError> {
    match spec_binary(s) {
        Err(ParseError::NoMatch) => match spec_hexadecimal(s) {
            Err(ParseError::NoMatch) => match spec_octal(s) {
                Err(ParseError::NoMatch) => spec_decimal(s),
                r => r,
            },
            r => r,
        },
        r => r,
    }
}

pub fn integer(input: &[u8]) -> (r: Result<(&[u8], u64), ParseError>)
    ensures
        outcome_matches(r, spec_integer(input@)),
{
    match binary(input) {
        Err(ParseError::NoMatch) => match hexadecimal(input) {
            Err(ParseError::NoMatch) => match octal(input) {
                Err(ParseError::NoMatch) => decimal(input),
                r => r,
            },
            r => r,
        },
        r => r,
    }
}

/// The addition production: an integer, the `+` token, and a second
/// integer.  The composition is sequential and never backtracks; the first
/// failure aborts the rule.  Operands must fit a signed 64-bit term.
pub open spec fn spec_expr(s: Seq<u8>) -> Result<(Seq<u8>, Addition), ParseError> {
    match spec_integer(s) {
        Ok((r1, v1)) => if v1 > i64::MAX as u64 {
            Err(ParseError::MalformedMatch)
        } else if r1.len() >= 1 && r1[0] == 43u8 {
            match spec_integer(r1.subrange(1, r1.len() as int)) {
                Ok((r2, v2)) => if v2 > i64::MAX as u64 {
                    Err(ParseError::MalformedMatch)
                } else {
                    Ok((r2, Addition { a: Term { t: v1 as i64 }, b: Term { t: v2 as i64 } }))
                },
                Err(e) => Err(e),
            }
        } else {
            Err(ParseError::NoMatch)
        },
        Err(e) => Err(e),
    }
}

pub fn expr(input: &[u8]) -> (r: Result<(&[u8], Addition), ParseError>)
    ensures
        outcome_matches(r, spec_expr(input@)),
{
    match integer(input) {
        Ok((r1, v1)) => {
            if v1 > i64::MAX as u64 {
                return Err(ParseError::MalformedMatch);
            }
            if r1.len() >= 1 && r1[0] == 43 {
                let rest1 = &r1[1..r1.len()];
                match integer(rest1) {
                    Ok((r2, v2)) => {
                        if v2 > i64::MAX as u64 {
                            return Err(ParseError::MalformedMatch);
                        }
                        Ok((r2, Addition { a: Term { t: v1 as i64 }, b: Term { t: v2 as i64 } }))
                    },
                    Err(e) => Err(e),
                }
            } else {
                Err(ParseError::NoMatch)
            }
        },
        Err(e) => Err(e),
    }
}

/// The root rule of the grammar.  Whatever follows the recognized
/// production is left unexamined; a caller that requires full consumption
/// must test the remainder itself.
pub open spec fn spec_root(s: Seq<u8>) -> Result<Addition, ParseError> {
    match spec_expr(s) {
        Ok((rest, tree)) => Ok(tree),
        Err(e) => Err(e),
    }
}

pub fn root(input: &[u8]) -> (r: Result<Addition, ParseError>)
    ensures
        r == spec_root(input@),
{
    match expr(input) {
        Ok((_, tree)) => Ok(tree),
        Err(e) => Err(e),
    }
}

} // verus!
