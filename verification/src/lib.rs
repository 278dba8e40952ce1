//! A small scripting language: a lexer from source bytes to located
//! tokens, a recursive-descent parser with explicit precedence levels, a
//! lowering pass that resolves literal tokens into typed values, and a
//! tree-walking evaluator over a name-to-value environment.
//!
//! The pipeline runs source text through [`lexer::lex`],
//! [`parser::parser`] and [`expr::Expr::from_parser`] into evaluation
//! form, and [`interp::interpreter`] executes the result against a
//! line-based input/output channel.  Floats travel as IEEE binary64 bit
//! patterns; their arithmetic is delegated to a software implementation
//! of the same format behind the trusted wrappers in [`floats`], whose
//! decimal rendering prints more digits than the shortest round-trip
//! form.  Evaluation takes a depth budget: nested calls and the other
//! indirections consume it, and each `until` iteration re-enters its
//! condition against it, so a condition that never turns true exhausts
//! the budget as a fatal fault instead of looping forever.  The
//! builtins whose bodies need the host process — `sqrt`, `pow`,
//! `getcwd`, `listdir`, `exists` — are dispatched through the
//! [`interp::HostBuiltins`] boundary that the embedding application
//! implements.

pub mod ast;
pub mod env;
pub mod error;
pub mod expr;
pub mod floats;
pub mod interp;
pub mod laws;
pub mod lexer;
pub mod literals;
pub mod lower;
pub mod parser;
pub mod render;
pub mod stdlib;
pub mod token;
