//! Structures that constitute the abstract syntax tree.

use vstd::prelude::*;

verus! {

/// One integer operand of the addition production.
#[derive(Clone, Copy, Debug, PartialEq, Eq, Structural)]
pub struct Term {
    pub t: i64,
}

/// The addition of two integer terms, the only production of the observed
/// grammar.
#[derive(Clone, Copy, Debug, PartialEq, Eq, Structural)]
pub struct Addition {
    pub a: Term,
    pub b: Term,
}

} // verus!
