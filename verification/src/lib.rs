//! Lexical front end for a small class-based language: a pull-based byte
//! source, a scanner that turns bytes into located tokens, and the value
//! wrapper that a table-driven parser keeps on its stack.

pub mod lexer;
pub mod parser;

pub use lexer::Lexer;
pub use lexer::TokenRegistry;
pub use parser::{ParserLoc, ParserValue};
