//! Lowering of stack-machine contract bytecode to an explicit-value,
//! single-assignment form, and emission of that form as LLVM IR.
//!
//! A module is first checked for structural soundness ([`ingest`]). Then
//! each function is lowered on its own: its signature ([`signature`]), its
//! local storage ([`locals`]) and its blocks ([`lowering`]), and the result
//! is checked ([`wellformed`]); [`pipeline`] does this for a whole module.
//! [`soundness`], [`semantics`] and [`laws`] hold what is proved of the
//! lowering. [`emit`] hands lowered functions to LLVM through the calls in
//! [`llvm`] and runs the cleanup passes of [`passes`] on them. [`backend`]
//! plans what the native toolchain is asked to do with the textual IR.

pub mod backend;
pub mod bytecode;
pub mod emit;
pub mod error;
pub mod ingest;
pub mod laws;
pub mod llvm;
pub mod locals;
pub mod lowered;
pub mod lowering;
pub mod passes;
pub mod pipeline;
pub mod semantics;
pub mod signature;
pub mod soundness;
pub mod wellformed;

pub use crate::emit::{translate_module, Translator};
