//! The parser: a recursive-descent, operator-precedence parser over the
//! tokens of a lexer. It keeps the current token and the one after it, and
//! records an error wherever a token is not the one it needs.

pub mod base;
pub mod expressions;
pub mod grammar;
pub mod statements;
pub mod stream;

pub use base::{ParseError, ParseErrors, Parser, ParserV};
