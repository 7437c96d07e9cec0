//! Configuration for the execution backend.
//!
//! The backend itself — an external native code-generation and JIT library —
//! is a collaborator of this crate, not part of it; these types carry the
//! options that an embedding program hands to it.

use vstd::prelude::*;

verus! {

/// How hard the execution backend optimizes.
#[derive(Clone, Debug)]
pub enum OptimizationLevel {
    NoOptimizations,
    Level1,
    Level2,
    Level3,
}

impl OptimizationLevel {
    /// The numeric level that the backend expects, from 0 for no
    /// optimizations to 3 for the highest level.
    pub fn level_number(&self) -> (n: u32)
        ensures
            n == match self {
                OptimizationLevel::NoOptimizations => 0int,
                OptimizationLevel::Level1 => 1int,
                OptimizationLevel::Level2 => 2int,
                OptimizationLevel::Level3 => 3int,
            },
    {
        match self {
            OptimizationLevel::NoOptimizations => 0,
            OptimizationLevel::Level1 => 1,
            OptimizationLevel::Level2 => 2,
            OptimizationLevel::Level3 => 3,
        }
    }
}

/// The code model under which the backend lays out generated code.
#[derive(Clone, Debug)]
pub enum CodeModel {
    Default,
    JITDefault,
    Kernel,
    Large,
    Medium,
    Small,
}

/// The options of an execution engine.
#[derive(Clone, Debug)]
pub struct Options {
    pub level: OptimizationLevel,
    pub code_model: CodeModel,
}

} // verus!
