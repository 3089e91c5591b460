//! The lexical grammar: which token the front of an input spells, and how
//! many bytes of the input go into it.

use super::classes::{
    alphanumeric, digit, is_digit, is_letter, is_whitespace, lemma_run_len_bounds, not_line_break,
    run_len, whitespace, COLON, COMMA, DIGIT_ZERO, DOT, EQUALS, GREATER, LEFT_PAREN, MINUS,
    RIGHT_PAREN, SLASH,
};
use super::registry::TokenRegistry;
use super::token::TokenView;
use crate::parser::ParserLoc;
use vstd::prelude::*;

verus! {

/// The bytes of a text of ASCII characters.
pub open spec fn ascii(text: Seq<char>) -> Seq<u8> {
    Seq::new(text.len(), |i: int| text[i] as u8)
}

/// The terminal of the reserved word that `word` spells, if it spells one.
pub open spec fn keyword(word: Seq<u8>) -> Option<i32> {
    if word == ascii("class"@) {
        Some(TokenRegistry::kCLASS)
    } else if word == ascii("extends"@) {
        Some(TokenRegistry::kEXTENDS)
    } else if word == ascii("is"@) {
        Some(TokenRegistry::kIS)
    } else if word == ascii("end"@) {
        Some(TokenRegistry::kEND)
    } else if word == ascii("var"@) {
        Some(TokenRegistry::kVAR)
    } else if word == ascii("method"@) {
        Some(TokenRegistry::kMETHOD)
    } else if word == ascii("this"@) {
        Some(TokenRegistry::kTHIS)
    } else if word == ascii("while"@) {
        Some(TokenRegistry::kWHILE)
    } else if word == ascii("loop"@) {
        Some(TokenRegistry::kLOOP)
    } else if word == ascii("if"@) {
        Some(TokenRegistry::kIF)
    } else if word == ascii("then"@) {
        Some(TokenRegistry::kTHEN)
    } else if word == ascii("else"@) {
        Some(TokenRegistry::kELSE)
    } else if word == ascii("return"@) {
        Some(TokenRegistry::kRETURN)
    } else {
        None
    }
}

/// The number that a run of decimal digits denotes.
pub open spec fn decimal(digits: Seq<u8>) -> nat
    decreases digits.len(),
{
    if digits.len() == 0 {
        0
    } else {
        10 * decimal(digits.drop_last()) + (digits.last() - DIGIT_ZERO) as nat
    }
}

/// Whether a run of decimal digits is the spelling of an unsigned 32-bit
/// number: it is not empty, and what it denotes is in range.
pub open spec fn denotes_u32(digits: Seq<u8>) -> bool {
    digits.len() > 0 && decimal(digits) <= u32::MAX
}

/// The diagnostic of a numeral that is no unsigned 32-bit number.
pub open spec fn invalid_numeral() -> Seq<u8> {
    ascii("Invalid num encountered"@)
}

/// A terminal read off the front of the input: which one, its payload, and
/// how many bytes of input it covers.
pub struct Lexeme {
    pub terminal: i32,
    pub payload: Seq<u8>,
    pub len: nat,
}

/// The reserved word or identifier at the front of `s`: the longest run of
/// letters and digits.
pub open spec fn word(s: Seq<u8>) -> Lexeme {
    let len = run_len(s, alphanumeric());
    let spelling = s.take(len as int);
    match keyword(spelling) {
        Some(terminal) => Lexeme { terminal, payload: Seq::empty(), len },
        None => Lexeme { terminal: TokenRegistry::tIDENTIFIER, payload: spelling, len },
    }
}

/// The numeral at the front of `s`: a minus sign, if there is one, and the
/// longest run of digits after it. Its payload is its spelling. Where the
/// digits denote no unsigned 32-bit number the terminal is the error terminal
/// and the payload a diagnostic.
pub open spec fn numeral(s: Seq<u8>) -> Lexeme {
    let sign: nat = if s.len() > 0 && s[0] == MINUS {
        1
    } else {
        0
    };
    let len = sign + run_len(s.skip(sign as int), digit());
    if denotes_u32(s.subrange(sign as int, len as int)) {
        Lexeme { terminal: TokenRegistry::tINTEGER, payload: s.take(len as int), len }
    } else {
        Lexeme { terminal: TokenRegistry::YYerror, payload: invalid_numeral(), len }
    }
}

/// A terminal with a fixed spelling of `len` bytes.
pub open spec fn fixed(terminal: i32, len: nat) -> Lexeme {
    Lexeme { terminal, payload: Seq::empty(), len }
}

/// The punctuation at the front of a non-empty `s`. A byte that begins none
/// is the undefined terminal, with that byte as payload.
pub open spec fn symbol(s: Seq<u8>) -> Lexeme {
    let b = s[0];
    if b == DOT {
        fixed(TokenRegistry::tDOT, 1)
    } else if b == COMMA {
        fixed(TokenRegistry::tCOMMA, 1)
    } else if b == LEFT_PAREN {
        fixed(TokenRegistry::tLPAREN, 1)
    } else if b == RIGHT_PAREN {
        fixed(TokenRegistry::tRPAREN, 1)
    } else if b == COLON && s.len() > 1 && s[1] == EQUALS {
        fixed(TokenRegistry::tASSIGN, 2)
    } else if b == COLON {
        fixed(TokenRegistry::tCOLON, 1)
    } else if b == EQUALS && s.len() > 1 && s[1] == GREATER {
        fixed(TokenRegistry::tARROW, 2)
    } else {
        Lexeme { terminal: TokenRegistry::YYUNDEF, payload: seq![b], len: 1 }
    }
}

/// The terminal at the front of `s`, chosen by the first byte: the end of
/// input where there is none, a word after a letter, a numeral after a digit
/// or a minus sign, punctuation after anything else.
pub open spec fn lexeme(s: Seq<u8>) -> Lexeme {
    if s.len() == 0 {
        fixed(TokenRegistry::YYEOF, 0)
    } else if is_letter(s[0]) {
        word(s)
    } else if is_digit(s[0]) || s[0] == MINUS {
        numeral(s)
    } else {
        symbol(s)
    }
}

/// The number of bytes at the front of `s` that are passed over before a
/// terminal is read: a run of whitespace; or a slash and, where a second
/// slash follows it, the comment that the two open, which runs up to the
/// next line feed and leaves it in place.
///
/// One call passes over one of the two, not both: whitespace after a comment
/// and a comment after whitespace are left for the terminal that follows. A
/// slash is passed over whatever follows it. Block comments are not
/// recognised: in `/*` the slash is passed over and the star is read as a
/// terminal.
pub open spec fn lead(s: Seq<u8>) -> nat {
    if s.len() == 0 {
        0
    } else if is_whitespace(s[0]) {
        run_len(s, whitespace())
    } else if s[0] == SLASH {
        if s.len() > 1 && s[1] == SLASH {
            1 + run_len(s.skip(1), not_line_break())
        } else {
            1
        }
    } else {
        0
    }
}

/// The offset `at` as a location holds it: its low 32 bits. Offsets below
/// 2^32 are held as they are.
pub open spec fn offset(at: nat) -> u32 {
    at as u32
}

/// The token of a terminal read at the offset `at`.
pub open spec fn located(found: Lexeme, at: nat) -> TokenView {
    TokenView {
        token_type: found.terminal,
        token_value: found.payload,
        loc: ParserLoc { begin: offset(at), end: offset(at + found.len) },
    }
}

/// What one call of the lexer yields: the token, the number of bytes of
/// input that the call consumes, and the offset at which the call leaves the
/// mark of where a token begins.
pub struct Scan {
    pub token: TokenView,
    pub used: nat,
    pub mark: nat,
}

/// The outcome of one call of the lexer on the input `s`, whose first byte
/// is at offset `pos`, where the stream ends after `s`.
pub open spec fn scan(s: Seq<u8>, pos: nat) -> Scan {
    let skipped = lead(s);
    let found = lexeme(s.skip(skipped as int));
    Scan {
        token: located(found, pos + skipped),
        used: skipped + found.len,
        mark: pos + skipped,
    }
}

/// Whether the terminal at the front of a non-empty `s` runs to the end of
/// `s` and is one whose end only the byte after it shows: a word, a numeral,
/// or a colon or an equals sign with nothing after it.
pub open spec fn looks_past(s: Seq<u8>) -> bool {
    if is_letter(s[0]) || is_digit(s[0]) || s[0] == MINUS {
        lexeme(s).len == s.len()
    } else {
        (s[0] == COLON || s[0] == EQUALS) && s.len() == 1
    }
}

/// Whether a call of the lexer on the input `s` reads up to the end of `s`
/// and looks for a byte after it: all of `s` is passed over, or the terminal
/// after what is passed over looks past the end.
pub open spec fn meets_end(s: Seq<u8>) -> bool {
    lead(s) == s.len() || looks_past(s.skip(lead(s) as int))
}

/// The token that reports a failure of the source with the diagnostic
/// `text`, over the span from `mark` to `at`.
pub open spec fn failure_token(text: Seq<u8>, mark: nat, at: nat) -> TokenView {
    TokenView {
        token_type: TokenRegistry::YYerror,
        token_value: text,
        loc: ParserLoc { begin: offset(mark), end: offset(at) },
    }
}

/// The outcome of one call of the lexer on the input `s`, whose first byte
/// is at offset `pos`, with the mark at `mark` before the call.
///
/// `ending` says what comes after `s`: nothing where the stream ends, or the
/// diagnostic of the failure that a read meets there. A call that looks for
/// a byte after `s` and meets a failure has consumed all of `s`, and yields
/// the token that reports the failure. The span of that token begins at the
/// mark: where a terminal was being read, at the beginning of that
/// terminal; where the call was still passing over bytes, at the mark that
/// it was given. Every other call yields what `scan` gives.
pub open spec fn outcome(s: Seq<u8>, pos: nat, mark: nat, ending: Option<Seq<u8>>) -> Scan {
    if ending is Some && meets_end(s) {
        let begin = if lead(s) == s.len() {
            mark
        } else {
            pos + lead(s)
        };
        Scan {
            token: failure_token(ending->0, begin, pos + s.len()),
            used: s.len(),
            mark: begin,
        }
    } else {
        scan(s, pos)
    }
}

/// The outcome of the call that comes after `n` calls of the lexer on the
/// input `s`, whose first byte is at offset `pos`, where the stream ends
/// after `s`.
pub open spec fn nth_scan(s: Seq<u8>, pos: nat, n: nat) -> Scan
    decreases n,
{
    if n == 0 {
        scan(s, pos)
    } else {
        let first = scan(s, pos);
        nth_scan(s.skip(first.used as int), pos + first.used, (n - 1) as nat)
    }
}

/// The token that marks the end of input at the offset `at`.
pub open spec fn end_of_input(at: nat) -> TokenView {
    located(fixed(TokenRegistry::YYEOF, 0), at)
}

/// The tokens that successive calls of the lexer yield on the input `s`,
/// whose first byte is at offset `pos`, where the stream ends after `s`: all
/// of them up to the first that marks the end of input, and that one.
pub open spec fn tokens(s: Seq<u8>, pos: nat) -> Seq<TokenView>
    decreases s.len(),
{
    let first = scan(s, pos);
    if first.token.token_type == TokenRegistry::YYEOF {
        seq![first.token]
    } else {
        proof {
            lemma_scan_advances(s, pos);
        }
        seq![first.token] + tokens(s.skip(first.used as int), pos + first.used)
    }
}

/// The bytes passed over before a terminal lie within the input.
pub proof fn lemma_lead_within(s: Seq<u8>)
    ensures
        lead(s) <= s.len(),
{
    lemma_run_len_bounds(s, whitespace());
    if s.len() > 0 {
        lemma_run_len_bounds(s.skip(1), not_line_break());
    }
}

/// A terminal lies within the input, and only the end of input is empty.
pub proof fn lemma_lexeme_within(s: Seq<u8>)
    ensures
        lexeme(s).len <= s.len(),
        s.len() > 0 ==> lexeme(s).len > 0,
        lexeme(s).terminal == TokenRegistry::YYEOF <==> s.len() == 0,
{
    if s.len() > 0 {
        lemma_run_len_bounds(s, alphanumeric());
        lemma_run_len_bounds(s.skip(0), digit());
        lemma_run_len_bounds(s.skip(1), digit());
        assert(s.skip(0) =~= s);
        if is_letter(s[0]) {
            assert(alphanumeric()(s[0]));
        }
    }
}

/// A call consumes no more than the input holds. It yields the end of input
/// exactly where all that is left is passed over, and then consumes all of
/// it; any other token takes at least one byte beyond what is passed over.
pub proof fn lemma_scan_advances(s: Seq<u8>, pos: nat)
    ensures
        scan(s, pos).used <= s.len(),
        scan(s, pos).token.token_type == TokenRegistry::YYEOF <==> lead(s) == s.len(),
        scan(s, pos).token.token_type == TokenRegistry::YYEOF ==> scan(s, pos).used == s.len(),
        scan(s, pos).token.token_type != TokenRegistry::YYEOF ==> scan(s, pos).used > lead(s),
{
    lemma_lead_within(s);
    lemma_lexeme_within(s.skip(lead(s) as int));
}

} // verus!
