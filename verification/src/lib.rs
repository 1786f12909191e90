//! A small SQL front-end: a hand-written lexer and a recursive-descent
//! grammar that turn one textual statement into a syntax tree covering
//! `CREATE TABLE`, `INSERT` and `SELECT`, with a precedence-aware
//! expression sub-grammar.
//!
//! Every parsing function is specified against a mathematical model of
//! the grammar (spec functions over `Seq<char>`), so the tree a caller
//! receives is exactly the one the model assigns to the input text.

use vstd::prelude::*;

pub mod laws;
pub mod lexer;
pub mod parser;
pub mod scan;

verus! {

/// Sum of two machine words; the precondition rules out overflow.
pub fn add(left: usize, right: usize) -> (r: usize)
    requires
        left + right <= usize::MAX,
    ensures
        r == left + right,
{
    left + right
}

} // verus!
