//! Verified core of a compiler from Move stackless bytecode to LLVM IR for
//! the Solana SBF target: the lowering decisions of the translator and the
//! proof that the run-time checks it emits keep Move's arithmetic meaning,
//! the target description, the declarations and names it emits,
//! dependency resolution for Move packages, and a C-string cache.

pub mod attributes;
pub mod cstr_cache;
pub mod function;
pub mod lowering;
pub mod module;
pub mod naming;
pub mod package;
pub mod resolution;
pub mod semantics;
pub mod target;
pub mod types;
