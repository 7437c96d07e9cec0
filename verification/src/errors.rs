//! Failure values returned by the recognizers.

use vstd::prelude::*;

verus! {

/// How a recognizer fails.
///
/// `NoMatch` means the input does not satisfy the rule's leading trigger; no
/// input is consumed and a sibling rule may be tried at the same position.
/// `MalformedMatch` means the trigger matched but the body is invalid (digits
/// missing after a radix prefix, numeric overflow, an unterminated block
/// comment); the rule fails hard.  `EncodingError` means bytes that must form
/// text are not valid UTF-8.
#[derive(Clone, Copy, Debug, PartialEq, Eq, Structural)]
pub enum ParseError {
    NoMatch,
    MalformedMatch,
    EncodingError,
}

/// How the single-quoted string rule fails.
#[derive(Clone, Copy, Debug, PartialEq, Eq, Structural)]
pub enum StringError {
    TooShort,
    InvalidOpeningCharacter,
    InvalidClosingCharacter,
    InvalidEncoding,
}

/// Whether the outcome `r` of a recognizer is the one that its mathematical
/// description computes: the same error, or the same value together with the
/// unconsumed remainder of the input.
pub open spec fn outcome_matches<T>(
    r: Result<(&[u8], T), ParseError>,
    m: Result<(Seq<u8>, T), ParseError>,
) -> bool {
    match (r, m) {
        (Ok((rest, v)), Ok((mrest, mv))) => rest@ == mrest && v == mv,
        (Err(e), Err(me)) => e == me,
        _ => false,
    }
}

/// As `outcome_matches`, for recognizers whose value is itself a span of the
/// input.
pub open spec fn span_matches(
    r: Result<(&[u8], &[u8]), ParseError>,
    m: Result<(Seq<u8>, Seq<u8>), ParseError>,
) -> bool {
    match (r, m) {
        (Ok((rest, v)), Ok((mrest, mv))) => rest@ == mrest && v@ == mv,
        (Err(e), Err(me)) => e == me,
        _ => false,
    }
}

/// As `outcome_matches`, for the string rule: its value is decoded text and
/// its failures carry their own detail.
pub open spec fn string_matches(
    r: Result<(&[u8], String), StringError>,
    m: Result<(Seq<u8>, Seq<char>), StringError>,
) -> bool {
    match (r, m) {
        (Ok((rest, v)), Ok((mrest, mv))) => rest@ == mrest && v@ == mv,
        (Err(e), Err(me)) => e == me,
        _ => false,
    }
}

} // verus!
