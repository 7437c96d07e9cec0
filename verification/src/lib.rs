//! A byte-oriented lexical scanner for a small PHP-like language.
//!
//! The crate recognizes literals (null, booleans, integers in four radices,
//! exponential floats, single-quoted strings, identifiers) and comments at the
//! front of a byte buffer, and composes them into one grammar production: the
//! addition of two integers.  Every recognizer consumes a maximal valid prefix
//! of its input and, on failure, leaves the caller's view of the input
//! untouched.

use vstd::prelude::*;

pub mod ast;
pub mod cli;
pub mod comments;
pub mod digits;
pub mod errors;
pub mod literals;
pub mod rules;
pub mod tokens;
pub mod vm;

verus! {

/// Complete parsing of a datum starting at the sentence symbol of the
/// grammar.
///
/// The root rule recognizes the addition of two integer literals; `parse`
/// runs it over the input and returns the resulting tree, or the failure of
/// the rule that gave up.
pub fn parse(input: &[u8]) -> (r: Result<ast::Addition, errors::ParseError>)
    ensures
        r == rules::spec_root(input@),
{
    rules::root(input)
}

} // verus!
