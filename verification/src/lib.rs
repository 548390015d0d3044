//! A small tree-walking interpreter for a dynamically typed scripting
//! language: a scanner turning source text into tokens, a recursive-descent
//! parser producing an abstract syntax tree, and an evaluator executing
//! statements against a chain of lexical scopes.
//!
//! Every stage returns its diagnostics as plain values; nothing here touches
//! the outside world. The driver that reads files, runs the prompt and picks
//! exit codes lives outside this crate.

pub mod diag;
pub mod environment;
pub mod expr;
pub mod interpreter;
pub mod parser;
pub mod printer;
pub mod run;
pub mod scanner;
pub mod stmt;
pub mod literal;
pub mod numeric;
pub mod text;
pub mod token;
pub mod token_type;
