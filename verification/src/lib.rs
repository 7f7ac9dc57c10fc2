//! A small Lisp: a reader that turns text into expressions, and a session
//! that evaluates them against a stack of scopes.
//!
//! The grammar and the meaning of evaluation are written down as
//! spec functions (`grammar`, `semantics`); the reader (`parser`)
//! and the evaluator (`env`, `builtin`) are proved to compute exactly what
//! those say.

pub mod arith;
pub mod builtin;
pub mod env;
pub mod expr;
pub mod float;
pub mod grammar;
pub mod laws;
pub mod order;
pub mod parser;
pub mod render;
pub mod roundtrip;
pub mod semantics;
pub mod text;

pub use env::Env;
pub use expr::Expr;
pub use parser::parse;
