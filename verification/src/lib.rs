//! Symbolic expressions, their derivatives, and a verified bytecode back end
//! that compiles expressions for fast numeric evaluation.
//!
//! Every function here carries a contract that Verus proves; the passes of the
//! back end state exactly what they make of their input, and the laws that
//! relate them stand as public proof functions beside them.

use vstd::prelude::*;

pub mod text;
pub mod number;
pub mod bytecode;
pub mod expr;
pub mod diff;
pub mod ast;
pub mod symbol;

verus! {

} // verus!
