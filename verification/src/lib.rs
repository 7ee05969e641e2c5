//! Front-end parsing core of a small compiler: a statement-level parser with
//! multi-error recovery, an operator-precedence expression parser, and a
//! type-annotation parser, all working over a rewindable token cursor.
#![verifier::loop_isolation(false)]

use vstd::prelude::*;

pub mod ast;
pub mod buffer;
pub mod expr;
pub mod span;
pub mod stmt;
pub mod token;
pub mod types;

verus! {

} // verus!
