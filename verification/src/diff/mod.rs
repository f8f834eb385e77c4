//! Symbolic differentiation of expressions.

pub mod rules;
pub mod engine;
pub mod calculus;
