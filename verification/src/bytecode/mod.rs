//! The bytecode back end: instruction set, optimization passes and encoding.

pub mod instruction;
pub mod uses;
pub mod dce;
pub mod vir;
pub mod compile;
pub mod gvn;
pub mod semantics;
pub mod assemble;
pub mod fusion;
pub mod pairing;
pub mod lower;
pub mod reg_alloc;
pub mod alloc_safety;
pub mod vir_fusion;
pub mod tables;
pub mod fields;
pub mod compact;
pub mod schedule;
pub mod power_chain;
pub mod validate;
