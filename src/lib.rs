//! The evaluator of a small dynamically typed scripting language for per-frame procedural
//! drawing: its object model, scope chain, operators, indexing and control-flow signals.

pub mod rng;
pub mod text;
pub mod value;
pub mod ast;
pub mod heap;
pub mod env;
pub mod ops;
pub mod access;
pub mod draw;
pub mod eval;
pub mod laws;
pub mod semantics;
