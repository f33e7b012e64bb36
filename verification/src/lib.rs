//! An interpreter for a small dynamically typed scripting language with
//! first-class functions, closures, arrays, hashes, `let` and `const`
//! bindings and `while` loops.
//!
//! Source text goes through three stages. The [`lexer`] turns characters
//! into tokens, the [`parser`] turns tokens into a syntax tree and records
//! what it cannot parse, and the [`evaluator`] walks the tree in an
//! environment of nested scopes. [`interpreter`] runs the three in a row.
//!
//! Each stage is stated twice: as a function on plain values that says what
//! the stage yields ([`lexer::lex`], [`parser::grammar`],
//! [`evaluator::semantics`]), and as the code that computes it, which is
//! proved to yield just that. [`laws`] holds what follows for every input.

pub mod ast;
pub mod evaluator;
pub mod interpreter;
pub mod laws;
pub mod lexer;
pub mod parser;
pub mod repl;
pub mod text;
pub mod token;
pub mod unicode;
