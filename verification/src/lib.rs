//! A small dynamically typed scripting language: scanner, parser and a
//! tree-walking evaluator that runs in small steps.
//!
//! Source text becomes tokens (`scanner`), tokens become statements
//! (`parser`, after the grammar in `grammar`), and statements are run by the
//! interpreter (`interpreter`, after the transition function in
//! `semantics`). `session` strings the three together. The interpreter asks
//! its driver to write output, to report failures, and to do the arithmetic
//! on doubles, which it holds as bit patterns.
//!
//! `evaluation` and `execution` say what an expression and a statement come
//! to as a whole, and prove that the steps of the interpreter add up to it.
pub mod token_type;
pub mod token;
pub mod expr;
pub mod stmt;
pub mod value;
pub mod environment;
pub mod text;
pub mod error_hadling;
pub mod scanner;
pub mod grammar;
pub mod parser;
pub mod ast_printer;
pub mod semantics;
pub mod interpreter;
pub mod session;
pub mod evaluation;
pub mod execution;
