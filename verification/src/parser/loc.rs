//! The span of a token in the input.

use crate::lexer::render::{decimal_text, push_decimal};
use vstd::prelude::*;
use vstd::string::StringExecFns;

verus! {

/// A half-open interval `[begin, end)` of byte offsets into the input.
#[derive(Clone, Copy, Debug, PartialEq, Eq, Structural)]
pub struct ParserLoc {
    pub begin: u32,
    pub end: u32,
}

/// A location as text: its two offsets with three dots between them.
pub open spec fn location_text(loc: ParserLoc) -> Seq<char> {
    decimal_text(loc.begin as nat) + "..."@ + decimal_text(loc.end as nat)
}

impl ParserLoc {
    /// The location as text.
    pub fn to_string(&self) -> (text: String)
        ensures
            text@ == location_text(*self),
    {
        let mut out = String::new();
        push_decimal(&mut out, self.begin);
        out.append("...");
        push_decimal(&mut out, self.end);
        assert(out@ =~= location_text(*self));
        out
    }
}

impl Default for ParserLoc {
    fn default() -> (loc: Self)
        ensures
            loc == (ParserLoc { begin: 0, end: 0 }),
    {
        ParserLoc { begin: 0, end: 0 }
    }
}

} // verus!
