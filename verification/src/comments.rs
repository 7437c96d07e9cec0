//! Group of comment rules: single-line comments opened by `//` or `#`, and
//! delimited block comments between `/*` and the first `*/`.
//!
//! A comment's value is its content: for a single-line comment the bytes
//! after the marker up to and including the line terminator, for a block
//! comment the bytes between the delimiters.

use vstd::prelude::*;

use crate::errors::span_matches;
use crate::errors::ParseError;

verus! {

/// The first position at or after `i` that holds a carriage return or a
/// line feed; the input's length when the line never ends.
pub open spec fn line_end(s: Seq<u8>, i: int) -> int
    decreases s.len() - i,
    when 0 <= i <= s.len()
{
    if i < s.len() && s[i] != 13u8 && s[i] != 10u8 {
        line_end(s, i + 1)
    } else {
        i
    }
}

/// A single-line comment: `//` or `#`, then everything up to and including
/// the first line terminator (`\r\n`, `\r` or `\n`), or to the end of the
/// input when no terminator follows.
pub open spec fn spec_comment_single_line(s: Seq<u8>) -> Result<(Seq<u8>, Seq<u8>), ParseError> {
    let m: int = if s.len() >= 2 && s[0] == 47u8 && s[1] == 47u8 {
        2
    } else if s.len() >= 1 && s[0] == 35u8 {
        1
    } else {
        -1
    };
    if m < 0 {
        Err(ParseError::NoMatch)
    } else {
        let t = line_end(s, m);
        let e: int = if t == s.len() {
            t
        } else if s[t] == 13u8 && t + 1 < s.len() && s[t + 1] == 10u8 {
            t + 2
        } else {
            t + 1
        };
        Ok((s.subrange(e, s.len() as int), s.subrange(m, e)))
    }
}

/// The position of the `*` of the first `*/` at or after `i`; the input's
/// length when the comment never closes.
pub open spec fn block_close(s: Seq<u8>, i: int) -> int
    decreases s.len() - i,
    when 0 <= i <= s.len()
{
    if i + 2 > s.len() {
        s.len() as int
    } else if s[i] == 42u8 && s[i + 1] == 47u8 {
        i
    } else {
        block_close(s, i + 1)
    }
}

/// A block comment: `/*`, then everything up to the first `*/`, which is
/// consumed as well.  An inner `/*` has no meaning; a comment that never
/// closes is a malformed match, not a partial one.
pub open spec fn spec_comment_delimited(s: Seq<u8>) -> Result<(Seq<u8>, Seq<u8>), ParseError> {
    if s.len() >= 2 && s[0] == 47u8 && s[1] == 42u8 {
        let j = block_close(s, 2);
        if j == s.len() {
            Err(ParseError::MalformedMatch)
        } else {
            Ok((s.subrange(j + 2, s.len() as int), s.subrange(2, j)))
        }
    } else {
        Err(ParseError::NoMatch)
    }
}

/// Any comment: the single-line rule first, then the block rule.  The
/// triggers `//`, `#` and `/*` are disjoint, so the order only settles who
/// reports a failure.
pub open spec fn spec_comment(s: Seq<u8>) -> Result<(Seq<u8>, Seq<u8>), ParseError> {
    match spec_comment_single_line(s) {
        Err(ParseError::NoMatch) => spec_comment_delimited(s),
        r => r,
    }
}

fn line_scan(input: &[u8], m: usize) -> (t: usize)
    requires
        m <= input@.len(),
    ensures
        t == line_end(input@, m as int),
        m <= t <= input@.len(),
{
    let mut j = m;
    while j < input.len() && input[j] != 13 && input[j] != 10
        invariant
            m <= j <= input@.len(),
            line_end(input@, m as int) == line_end(input@, j as int),
        decreases input@.len() - j,
    {
        proof {
            assert(line_end(input@, j as int) == line_end(input@, j + 1));
        }
        j = j + 1;
    }
    proof {
        assert(line_end(input@, j as int) == j as int);
    }
    j
}

pub fn comment_single_line(input: &[u8]) -> (r: Result<(&[u8], &[u8]), ParseError>)
    ensures
        span_matches(r, spec_comment_single_line(input@)),
{
    let m: usize = if input.len() >= 2 && input[0] == 47 && input[1] == 47 {
        2
    } else if input.len() >= 1 && input[0] == 35 {
        1
    } else {
        return Err(ParseError::NoMatch);
    };
    let t = line_scan(input, m);
    let e: usize = if t == input.len() {
        t
    } else if input[t] == 13 && t + 1 < input.len() && input[t + 1] == 10 {
        t + 2
    } else {
        t + 1
    };
    Ok((&input[e..input.len()], &input[m..e]))
}

pub fn comment_delimited(input: &[u8]) -> (r: Result<(&[u8], &[u8]), ParseError>)
    ensures
        span_matches(r, spec_comment_delimited(input@)),
{
    if input.len() >= 2 && input[0] == 47 && input[1] == 42 {
        let mut j: usize = 2;
        while j < input.len() && j + 1 < input.len() && !(input[j] == 42 && input[j + 1] == 47)
            invariant
                2 <= j <= input@.len(),
                block_close(input@, 2) == block_close(input@, j as int),
            decreases input@.len() - j,
        {
            proof {
                assert(block_close(input@, j as int) == block_close(input@, j + 1));
            }
            j = j + 1;
        }
        if j < input.len() && j + 1 < input.len() {
            proof {
                assert(block_close(input@, j as int) == j as int);
            }
            Ok((&input[j + 2..input.len()], &input[2..j]))
        } else {
            proof {
                assert(block_close(input@, j as int) == input@.len() as int);
            }
            Err(ParseError::MalformedMatch)
        }
    } else {
        Err(ParseError::NoMatch)
    }
}

pub fn comment(input: &[u8]) -> (r: Result<(&[u8], &[u8]), ParseError>)
    ensures
        span_matches(r, spec_comment(input@)),
{
    match comment_single_line(input) {
        Err(ParseError::NoMatch) => comment_delimited(input),
        r => r,
    }
}

} // verus!
