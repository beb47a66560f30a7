//! An interpreter for a small expression language with first-class escape
//! continuations.

pub mod ast;
pub mod equal;
pub mod error;
pub mod eval;
pub mod grammar;
pub mod laws;
pub mod lexer;
pub mod natives;
pub mod parser;
pub mod registry;
pub mod scope;
pub mod semantics;
pub mod text;
pub mod value;
