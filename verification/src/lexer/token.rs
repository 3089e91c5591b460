//! The token, and how it reads as a line of text.

use super::render::{padded_text, payload_text, push_padded, push_payload};
use super::registry::{name_of, token_name, TokenRegistry};
use crate::parser::ParserLoc;
use vstd::prelude::*;
use vstd::string::StringExecFns;

verus! {

/// One terminal as the lexer hands it to the parser.
///
/// `token_value` is empty for a terminal with a fixed spelling. For an
/// identifier or an integer literal it is the spelling, for the undefined
/// terminal the offending byte, and for the error terminal the diagnostic.
#[derive(Debug)]
pub struct Token {
    pub token_type: i32,
    pub token_value: Vec<u8>,
    pub loc: ParserLoc,
}

/// A token as a mathematical value.
pub struct TokenView {
    pub token_type: i32,
    pub token_value: Seq<u8>,
    pub loc: ParserLoc,
}

impl View for Token {
    type V = TokenView;

    open spec fn view(&self) -> TokenView {
        TokenView { token_type: self.token_type, token_value: self.token_value@, loc: self.loc }
    }
}

impl Clone for Token {
    fn clone(&self) -> (copy: Self)
        ensures
            copy@ == self@,
    {
        Token {
            token_type: self.token_type,
            token_value: self.token_value.clone(),
            loc: self.loc,
        }
    }
}

/// A token as a line of text: its span, the name of its terminal, and its
/// payload as text.
pub open spec fn rendering(t: TokenView) -> Seq<char> {
    "[ ("@ + padded_text(t.loc.begin as nat) + ".."@ + padded_text(t.loc.end as nat) + ")\t"@
        + name_of(t.token_type) + " "@ + payload_text(t.token_value) + "]"@
}

impl Token {
    /// The token as a line of text.
    pub fn to_string(&self) -> (text: String)
        ensures
            text@ == rendering(self@),
    {
        let mut out = String::from_str("[ (");
        push_padded(&mut out, self.loc.begin);
        out.append("..");
        push_padded(&mut out, self.loc.end);
        out.append(")\t");
        out.append(self.terminal_name());
        out.append(" ");
        push_payload(&mut out, &self.token_value);
        out.append("]");
        out
    }

    /// The name of the token's terminal.
    pub fn terminal_name(&self) -> (name: &'static str)
        ensures
            name@ == name_of(self.token_type),
    {
        if self.token_type == TokenRegistry::YYUNDEF {
            "YYUNDEF"
        } else if self.token_type == TokenRegistry::YYerror {
            "YYerror"
        } else if self.token_type == TokenRegistry::YYEOF || (TokenRegistry::kCLASS
            <= self.token_type && self.token_type <= TokenRegistry::tARROW) {
            token_name(self.token_type)
        } else {
            "YYUNDEF"
        }
    }
}

} // verus!
