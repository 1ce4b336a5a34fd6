//! An interpreter core for a small language with unrestricted, linear and
//! affine values: a substructural type checker and an evaluator that share
//! one depth-indexed scope stack.
pub mod ast;
pub mod eval;
pub mod exits;
pub mod gc;
pub mod laws;
pub mod scope;
pub mod soundness;
pub mod text;
pub mod typing;
