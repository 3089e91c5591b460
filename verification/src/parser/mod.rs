//! Types that the parser shares with the lexer.

mod loc;
mod value;

pub use loc::{location_text, ParserLoc};
pub use value::{ParserValue, ParserValueView};
