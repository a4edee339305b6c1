//! Construction core for a table-driven parser: a dual-keyed symbol table,
//! a canonicalizing store of terminal bit sets, a rule store, and the frozen
//! grammar object that bundles them for a recognizer to consume.
use vstd::prelude::*;

pub mod grammar;
pub mod render;
pub mod rules;
pub mod symbols;
pub mod term_sets;

verus! {

/// Errors reported to the caller of the grammar-building API.
/// Construction fails without mutating the store that rejected the input.
#[derive(Clone, Copy, Debug, PartialEq, Eq, Structural)]
pub enum GrammarError {
    /// The symbol name is already taken by some symbol, of either kind.
    DuplicateName,
    /// The terminal code is already taken by another terminal.
    DuplicateCode,
    /// A set-bit index at or past the number of terminals.
    InvalidTerminalIndex,
}

} // verus!
