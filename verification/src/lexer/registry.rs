//! The terminals and the integers that stand for them.

use vstd::prelude::*;

verus! {

/// The terminals of the grammar, by the integer that stands for each.
///
/// Three of them are reserved for the protocol between lexer and parser: end
/// of input, a lexical error, and a byte that begins no terminal. The others
/// are numbered upward from the first free code, the reserved words first.
#[derive(Debug)]
pub struct TokenRegistry;

#[allow(non_upper_case_globals)]
impl TokenRegistry {
    /// End of input.
    pub const YYEOF: i32 = 0;

    /// A lexical error; the payload of the token is the diagnostic.
    pub const YYerror: i32 = 256;

    /// A byte that begins no terminal; the payload of the token is that byte.
    pub const YYUNDEF: i32 = 257;

    pub const kCLASS: i32 = 258;

    pub const kEXTENDS: i32 = 259;

    pub const kIS: i32 = 260;

    pub const kEND: i32 = 261;

    pub const kVAR: i32 = 262;

    pub const kMETHOD: i32 = 263;

    pub const kTHIS: i32 = 264;

    pub const kWHILE: i32 = 265;

    pub const kLOOP: i32 = 266;

    pub const kIF: i32 = 267;

    pub const kTHEN: i32 = 268;

    pub const kELSE: i32 = 269;

    pub const kRETURN: i32 = 270;

    /// An identifier; the payload of the token is its spelling.
    pub const tIDENTIFIER: i32 = 271;

    /// An integer literal; the payload of the token is its spelling.
    pub const tINTEGER: i32 = 272;

    pub const tDOT: i32 = 273;

    pub const tCOMMA: i32 = 274;

    pub const tLPAREN: i32 = 275;

    pub const tRPAREN: i32 = 276;

    pub const tCOLON: i32 = 277;

    pub const tASSIGN: i32 = 278;

    pub const tARROW: i32 = 279;

    /// Whether `id` stands for a terminal.
    pub open spec fn is_terminal(id: i32) -> bool {
        id == Self::YYEOF || (Self::YYerror <= id && id <= Self::tARROW)
    }
}

/// The name of the terminal that `id` stands for. An integer that stands for
/// none has the name of the undefined terminal, as the parser treats it.
pub open spec fn name_of(id: i32) -> Seq<char> {
    if id == TokenRegistry::YYEOF {
        "EOF"@
    } else if id == TokenRegistry::YYerror {
        "YYerror"@
    } else if id == TokenRegistry::kCLASS {
        "kCLASS"@
    } else if id == TokenRegistry::kEXTENDS {
        "kEXTENDS"@
    } else if id == TokenRegistry::kIS {
        "kIS"@
    } else if id == TokenRegistry::kEND {
        "kEND"@
    } else if id == TokenRegistry::kVAR {
        "kVAR"@
    } else if id == TokenRegistry::kMETHOD {
        "kMETHOD"@
    } else if id == TokenRegistry::kTHIS {
        "kTHIS"@
    } else if id == TokenRegistry::kWHILE {
        "kWHILE"@
    } else if id == TokenRegistry::kLOOP {
        "kLOOP"@
    } else if id == TokenRegistry::kIF {
        "kIF"@
    } else if id == TokenRegistry::kTHEN {
        "kTHEN"@
    } else if id == TokenRegistry::kELSE {
        "kELSE"@
    } else if id == TokenRegistry::kRETURN {
        "kRETURN"@
    } else if id == TokenRegistry::tIDENTIFIER {
        "tIDENTIFIER"@
    } else if id == TokenRegistry::tINTEGER {
        "tINTEGER"@
    } else if id == TokenRegistry::tDOT {
        "tDOT"@
    } else if id == TokenRegistry::tCOMMA {
        "tCOMMA"@
    } else if id == TokenRegistry::tLPAREN {
        "tLPAREN"@
    } else if id == TokenRegistry::tRPAREN {
        "tRPAREN"@
    } else if id == TokenRegistry::tCOLON {
        "tCOLON"@
    } else if id == TokenRegistry::tASSIGN {
        "tASSIGN"@
    } else if id == TokenRegistry::tARROW {
        "tARROW"@
    } else {
        "YYUNDEF"@
    }
}

/// The name of a terminal of the grammar or of the end of input.
pub(crate) fn token_name(id: i32) -> (name: &'static str)
    requires
        TokenRegistry::is_terminal(id),
        id != TokenRegistry::YYerror,
        id != TokenRegistry::YYUNDEF,
    ensures
        name@ == name_of(id),
{
    if id == TokenRegistry::YYEOF {
        "EOF"
    } else if id == TokenRegistry::kCLASS {
        "kCLASS"
    } else if id == TokenRegistry::kEXTENDS {
        "kEXTENDS"
    } else if id == TokenRegistry::kIS {
        "kIS"
    } else if id == TokenRegistry::kEND {
        "kEND"
    } else if id == TokenRegistry::kVAR {
        "kVAR"
    } else if id == TokenRegistry::kMETHOD {
        "kMETHOD"
    } else if id == TokenRegistry::kTHIS {
        "kTHIS"
    } else if id == TokenRegistry::kWHILE {
        "kWHILE"
    } else if id == TokenRegistry::kLOOP {
        "kLOOP"
    } else if id == TokenRegistry::kIF {
        "kIF"
    } else if id == TokenRegistry::kTHEN {
        "kTHEN"
    } else if id == TokenRegistry::kELSE {
        "kELSE"
    } else if id == TokenRegistry::kRETURN {
        "kRETURN"
    } else if id == TokenRegistry::tIDENTIFIER {
        "tIDENTIFIER"
    } else if id == TokenRegistry::tINTEGER {
        "tINTEGER"
    } else if id == TokenRegistry::tDOT {
        "tDOT"
    } else if id == TokenRegistry::tCOMMA {
        "tCOMMA"
    } else if id == TokenRegistry::tLPAREN {
        "tLPAREN"
    } else if id == TokenRegistry::tRPAREN {
        "tRPAREN"
    } else if id == TokenRegistry::tCOLON {
        "tCOLON"
    } else if id == TokenRegistry::tASSIGN {
        "tASSIGN"
    } else {
        "tARROW"
    }
}

} // verus!
