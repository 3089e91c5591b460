//! The scanner and what it reads from.
//!
//! `grammar` says which token the front of an input spells; `Lexer` reads
//! that token from a `ByteSource`; `laws` holds what is proved of every
//! input.

pub mod classes;
pub mod grammar;
pub mod laws;
mod registry;
pub mod render;
mod source;
pub mod spelling;
mod token;

pub use registry::{name_of, TokenRegistry};
pub use source::{peeked, ByteSource, StrSource};
pub use token::{rendering, Token, TokenView};

use crate::parser::ParserLoc;
use classes::{
    alphanumeric, byte_is_alphanumeric, byte_is_digit, byte_is_letter, byte_is_not_line_break,
    byte_is_whitespace, digit, is_digit, lemma_run_len_bounds, lemma_run_len_is, not_line_break,
    run_len, whitespace, COLON, COMMA, DOT, EQUALS, GREATER, LEFT_PAREN, MINUS, RIGHT_PAREN,
    SLASH,
};
use grammar::{
    end_of_input, failure_token, lead, lemma_lead_within, lemma_lexeme_within, located, numeral,
    offset, outcome, symbol, word, Lexeme,
};
use spelling::{ascii_bytes, spells, spells_u32};
use vstd::prelude::*;
use vstd::string::{StrSliceExecFns, StringSliceAdditionalSpecFns};
use vstd::utf8::encode_utf8;

verus! {

/// A scanner over a byte source. Each call of `yylex` reads one token.
///
/// The lexer counts the bytes it has consumed, and marks the offset at which
/// the token in the making begins.
#[derive(Debug)]
pub struct Lexer<S: ByteSource> {
    src: S,
    pos: usize,
    loc: usize,
}

impl<S: ByteSource> Lexer<S> {
    /// The input that is still to be scanned: the bytes that the source
    /// hands out before its stream ends or a read of it fails.
    pub closed spec fn remaining(&self) -> Seq<u8> {
        self.src.remaining()
    }

    /// What comes after the input: nothing where the stream ends, or the
    /// diagnostic of the failure that a read meets there.
    pub closed spec fn ending(&self) -> Option<Seq<u8>> {
        Self::rendered(self.src.failure())
    }

    /// The way a source ends as the lexer reports it: an error of the source
    /// as the bytes of the text that the source renders it to.
    pub open spec fn rendered(failure: Option<S::Error>) -> Option<Seq<u8>> {
        match failure {
            Some(e) => Some(encode_utf8(S::diagnostic(e))),
            None => None,
        }
    }

    /// The number of bytes consumed so far: the offset of the next byte.
    pub closed spec fn pos(&self) -> nat {
        self.pos as nat
    }

    /// The offset at which the token in the making begins.
    pub closed spec fn anchor(&self) -> nat {
        self.loc as nat
    }

    /// Whether the lexer is fit to read a token: the mark is not ahead of the
    /// position, and the count of bytes can reach the end of the input
    /// without overflow.
    pub open spec fn wf(&self) -> bool {
        &&& self.anchor() <= self.pos()
        &&& self.pos() + self.remaining().len() <= usize::MAX
    }

    /// The interval from the mark to the position, as a location holds it.
    pub open spec fn span(&self) -> ParserLoc {
        ParserLoc { begin: offset(self.anchor()), end: offset(self.pos()) }
    }

    /// Whether the lexer `self` has turned into `after` by consuming `n`
    /// bytes of its input and leaving the mark at `mark`.
    pub open spec fn moved(&self, after: &Self, n: nat, mark: nat) -> bool {
        &&& after.remaining() =~= self.remaining().skip(n as int)
        &&& after.ending() == self.ending()
        &&& after.pos() == self.pos() + n
        &&& after.anchor() == mark
        &&& after.wf()
    }

    /// Whether the lexer `self` has turned into `after` by consuming all of
    /// its input and meeting a failure of the source after it, which `t`
    /// reports over the span from the mark to the end of the input.
    pub open spec fn fails(&self, after: &Self, t: TokenView) -> bool {
        &&& self.ending() is Some
        &&& self.moved(after, self.remaining().len(), self.anchor())
        &&& t == failure_token(
            self.ending()->0,
            self.anchor(),
            self.pos() + self.remaining().len(),
        )
    }

    /// Whether the lexer `self` has turned into `after` by reading `found`
    /// at its position and handing it out as `t`.
    pub open spec fn reads(&self, after: &Self, found: Lexeme, t: TokenView) -> bool {
        &&& t == located(found, self.pos())
        &&& self.moved(after, found.len, self.anchor())
    }

    /// Whether the lexer `self` has turned into `after` by one call that
    /// gave the token `t`: the token is the one that `outcome` gives for the
    /// input, the position, the mark and the ending of `self`, and `after`
    /// is past the bytes that `outcome` counts, with the mark where
    /// `outcome` leaves it.
    pub open spec fn scans(&self, after: &Self, t: TokenView) -> bool {
        let o = outcome(self.remaining(), self.pos(), self.anchor(), self.ending());
        &&& t == o.token
        &&& self.moved(after, o.used, o.mark)
    }

    /// A lexer at the start of the input that `src` holds. It is fit to read
    /// tokens where the bytes of the input can be counted in a `usize`.
    pub fn new(src: S) -> (lexer: Self)
        ensures
            lexer.remaining() == src.remaining(),
            lexer.ending() == Self::rendered(src.failure()),
            lexer.pos() == 0,
            lexer.anchor() == 0,
            src.remaining().len() <= usize::MAX ==> lexer.wf(),
    {
        Self { src, pos: 0, loc: 0 }
    }

    /// A token without payload over the span in the making.
    fn empty_token(&self, token_type: i32) -> (t: Token)
        ensures
            t@ == (TokenView { token_type, token_value: Seq::empty(), loc: self.span() }),
    {
        Token { token_type, token_value: Vec::new(), loc: self.get_loc() }
    }

    /// A token over the span in the making.
    fn token(&self, token_type: i32, token_value: Vec<u8>) -> (t: Token)
        ensures
            t@ == (TokenView { token_type, token_value: token_value@, loc: self.span() }),
    {
        Token { token_type, token_value, loc: self.get_loc() }
    }

    /// What `value` holds, or, where it holds nothing, the token that marks
    /// the end of input at the position.
    fn make_eof_if_none<T>(&mut self, value: Option<T>) -> (r: Result<T, Token>)
        ensures
            final(self).pos() == old(self).pos(),
            final(self).remaining() == old(self).remaining(),
            final(self).ending() == old(self).ending(),
            match value {
                Some(v) => r == Ok::<T, Token>(v) && final(self).anchor() == old(self).anchor(),
                None => r matches Err(t) && t@ == end_of_input(old(self).pos()) && final(self).anchor() == old(self).pos(),
            },
    {
        match value {
            Some(v) => Ok(v),
            None => {
                self.pin_loc();
                Err(self.empty_token(TokenRegistry::YYEOF))
            },
        }
    }

    /// An error token with the diagnostic `data` over the span in the
    /// making.
    fn make_err(&self, data: Vec<u8>) -> (t: Token)
        ensures
            t@ == (TokenView {
                token_type: TokenRegistry::YYerror,
                token_value: data@,
                loc: self.span(),
            }),
    {
        self.token(TokenRegistry::YYerror, data)
    }

    /// The next byte of the input, if there is one; it stays in the input.
    /// A failure of the source comes back as the token that reports it, over
    /// the span in the making.
    fn peek_maybe(&mut self) -> (r: Result<Option<u8>, Token>)
        ensures
            final(self).pos() == old(self).pos(),
            final(self).anchor() == old(self).anchor(),
            final(self).remaining() == old(self).remaining(),
            final(self).ending() == old(self).ending(),
            match r {
                Ok(Some(b)) => old(self).remaining().len() > 0 && b == old(self).remaining()[0],
                Ok(None) => old(self).remaining().len() == 0 && old(self).ending() is None,
                Err(t) => {
                    &&& old(self).remaining().len() == 0
                    &&& old(self).ending() is Some
                    &&& t@ == failure_token(
                        old(self).ending()->0,
                        old(self).anchor(),
                        old(self).pos(),
                    )
                },
            },
    {
        match self.src.peek() {
            Ok(b) => Ok(b),
            Err(e) => {
                let text = S::report_error(e);
                Err(self.make_err(text.as_str().as_bytes_vec()))
            },
        }
    }

    /// The next byte of the input; it stays in the input. The end of input
    /// comes back as the token that marks it, with the mark set to the
    /// position; a failure of the source as the token that reports it, with
    /// the mark left where it was.
    fn peek(&mut self) -> (r: Result<u8, Token>)
        ensures
            final(self).pos() == old(self).pos(),
            final(self).remaining() == old(self).remaining(),
            final(self).ending() == old(self).ending(),
            match r {
                Ok(b) => {
                    &&& old(self).remaining().len() > 0
                    &&& b == old(self).remaining()[0]
                    &&& final(self).anchor() == old(self).anchor()
                },
                Err(t) => {
                    &&& old(self).remaining().len() == 0
                    &&& match old(self).ending() {
                        None => {
                            &&& t@ == end_of_input(old(self).pos())
                            &&& final(self).anchor() == old(self).pos()
                        },
                        Some(text) => {
                            &&& t@ == failure_token(text, old(self).anchor(), old(self).pos())
                            &&& final(self).anchor() == old(self).anchor()
                        },
                    }
                },
            },
    {
        match self.peek_maybe() {
            Ok(maybe_b) => self.make_eof_if_none(maybe_b),
            Err(t) => Err(t),
        }
    }

    /// Consumes the next byte of the input, which a look ahead has shown to
    /// be there: the read gives that byte.
    fn next_maybe(&mut self) -> (r: Result<Option<u8>, Token>)
        requires
            old(self).wf(),
            old(self).remaining().len() > 0,
        ensures
            r matches Ok(Some(b)) && b == old(self).remaining()[0],
            old(self).moved(final(self), 1, old(self).anchor()),
    {
        self.pos += 1;
        match self.src.next() {
            Ok(b) => Ok(b),
            Err(e) => {
                let text = S::report_error(&e);
                Err(self.make_err(text.as_str().as_bytes_vec()))
            },
        }
    }

    /// Consumes the next byte of the input, which a look ahead has shown to
    /// be there, and returns it.
    fn next(&mut self) -> (r: Result<u8, Token>)
        requires
            old(self).wf(),
            old(self).remaining().len() > 0,
        ensures
            r matches Ok(b) && b == old(self).remaining()[0],
            old(self).moved(final(self), 1, old(self).anchor()),
    {
        match self.next_maybe() {
            Ok(maybe_b) => self.make_eof_if_none(maybe_b),
            Err(t) => Err(t),
        }
    }

    /// Sets the mark to the position: a token begins here.
    fn pin_loc(&mut self)
        ensures
            final(self).anchor() == old(self).pos(),
            final(self).pos() == old(self).pos(),
            final(self).remaining() == old(self).remaining(),
            final(self).ending() == old(self).ending(),
    {
        self.loc = self.pos;
    }

    /// The span in the making. Offsets are cut to their low 32 bits.
    fn get_loc(&self) -> (loc: ParserLoc)
        ensures
            loc == self.span(),
    {
        ParserLoc {
            begin: #[verifier::truncate] (self.loc as u32),
            end: #[verifier::truncate] (self.pos as u32),
        }
    }

    /// Consumes the longest run of bytes that satisfy `pred`. Where the run
    /// goes to the end of the input and a failure of the source comes after
    /// it, the token that reports the failure comes back.
    fn skip_while<F: Fn(u8) -> bool>(
        &mut self,
        pred: F,
        Ghost(class): Ghost<spec_fn(u8) -> bool>,
    ) -> (r: Result<(), Token>)
        requires
            old(self).wf(),
            forall|b: u8| call_requires(pred, (b,)),
            forall|b: u8, holds: bool| call_ensures(pred, (b,), holds) ==> holds == class(b),
        ensures
            ({
                let n = run_len(old(self).remaining(), class);
                let stopped = n == old(self).remaining().len() && old(self).ending() is Some;
                match r {
                    Ok(_) => !stopped && old(self).moved(final(self), n, old(self).anchor()),
                    Err(t) => stopped && old(self).fails(final(self), t@),
                }
            }),
    {
        let ghost input = self.remaining();
        let ghost start = self.pos();
        let ghost mut n: nat = 0;
        loop
            invariant
                self.wf(),
                input == old(self).remaining(),
                start == old(self).pos(),
                n <= input.len(),
                self.remaining() == input.skip(n as int),
                self.ending() == old(self).ending(),
                self.pos() == start + n,
                self.anchor() == old(self).anchor(),
                forall|i: int| 0 <= i < n ==> class(#[trigger] input[i]),
                forall|b: u8| call_requires(pred, (b,)),
                forall|b: u8, holds: bool| call_ensures(pred, (b,), holds) ==> holds == class(b),
            ensures
                n == run_len(input, class),
                n < input.len() || self.ending() is None,
            decreases input.len() - n,
        {
            match self.peek_maybe() {
                Ok(Some(b)) => {
                    if !pred(b) {
                        proof {
                            lemma_run_len_is(input, class, n);
                        }
                        break ;
                    }
                    self.next_maybe()?;
                    proof {
                        n = n + 1;
                    }
                },
                Ok(None) => {
                    proof {
                        lemma_run_len_is(input, class, n);
                    }
                    break ;
                },
                Err(t) => {
                    proof {
                        assert(input.skip(n as int).len() == input.len() - n);
                        lemma_run_len_is(input, class, n);
                    }
                    return Err(t);
                },
            }
        }
        Ok(())
    }

    /// Consumes the longest run of bytes that satisfy `pred`, and returns it.
    /// Where the run goes to the end of the input and a failure of the source
    /// comes after it, the token that reports the failure comes back.
    fn take_while<F: Fn(u8) -> bool>(
        &mut self,
        pred: F,
        Ghost(class): Ghost<spec_fn(u8) -> bool>,
    ) -> (r: Result<Vec<u8>, Token>)
        requires
            old(self).wf(),
            forall|b: u8| call_requires(pred, (b,)),
            forall|b: u8, holds: bool| call_ensures(pred, (b,), holds) ==> holds == class(b),
        ensures
            ({
                let n = run_len(old(self).remaining(), class);
                let stopped = n == old(self).remaining().len() && old(self).ending() is Some;
                match r {
                    Ok(run) => {
                        &&& !stopped
                        &&& run@ == old(self).remaining().take(n as int)
                        &&& old(self).moved(final(self), n, old(self).anchor())
                    },
                    Err(t) => stopped && old(self).fails(final(self), t@),
                }
            }),
    {
        let ghost input = self.remaining();
        let ghost start = self.pos();
        let mut buf: Vec<u8> = Vec::new();
        loop
            invariant
                self.wf(),
                input == old(self).remaining(),
                start == old(self).pos(),
                buf@.len() <= input.len(),
                buf@ == input.take(buf@.len() as int),
                self.remaining() == input.skip(buf@.len() as int),
                self.ending() == old(self).ending(),
                self.pos() == start + buf@.len(),
                self.anchor() == old(self).anchor(),
                forall|i: int| 0 <= i < buf@.len() ==> class(#[trigger] input[i]),
                forall|b: u8| call_requires(pred, (b,)),
                forall|b: u8, holds: bool| call_ensures(pred, (b,), holds) ==> holds == class(b),
            ensures
                buf@.len() == run_len(input, class),
                buf@ == input.take(buf@.len() as int),
                buf@.len() < input.len() || self.ending() is None,
            decreases input.len() - buf@.len(),
        {
            match self.peek_maybe() {
                Ok(Some(b)) => {
                    if !pred(b) {
                        proof {
                            lemma_run_len_is(input, class, buf@.len());
                        }
                        break ;
                    }
                    buf.push(b);
                    self.next_maybe()?;
                },
                Ok(None) => {
                    proof {
                        lemma_run_len_is(input, class, buf@.len());
                    }
                    break ;
                },
                Err(t) => {
                    proof {
                        assert(input.skip(buf@.len() as int).len() == input.len() - buf@.len());
                        lemma_run_len_is(input, class, buf@.len());
                    }
                    return Err(t);
                },
            }
        }
        Ok(buf)
    }

    /// Reads the punctuation at the front of the input. A colon or an
    /// equals sign at the end of the input, with a failure of the source
    /// after it, comes back as the token that reports the failure.
    fn read_symbolic(&mut self) -> (r: Result<Token, Token>)
        requires
            old(self).wf(),
            old(self).anchor() == old(self).pos(),
            old(self).remaining().len() > 0,
        ensures
            ({
                let s = old(self).remaining();
                let alone = (s[0] == COLON || s[0] == EQUALS) && s.len() == 1;
                let stopped = alone && old(self).ending() is Some;
                match r {
                    Ok(t) => !stopped && old(self).reads(final(self), symbol(s), t@),
                    Err(t) => stopped && old(self).fails(final(self), t@),
                }
            }),
    {
        let b = self.next()?;
        if b == DOT {
            Ok(self.empty_token(TokenRegistry::tDOT))
        } else if b == COMMA {
            Ok(self.empty_token(TokenRegistry::tCOMMA))
        } else if b == LEFT_PAREN {
            Ok(self.empty_token(TokenRegistry::tLPAREN))
        } else if b == RIGHT_PAREN {
            Ok(self.empty_token(TokenRegistry::tRPAREN))
        } else if b == COLON {
            if let Some(EQUALS) = self.peek_maybe()? {
                self.next_maybe()?;
                Ok(self.empty_token(TokenRegistry::tASSIGN))
            } else {
                Ok(self.empty_token(TokenRegistry::tCOLON))
            }
        } else if b == EQUALS {
            if let Some(GREATER) = self.peek_maybe()? {
                self.next_maybe()?;
                Ok(self.empty_token(TokenRegistry::tARROW))
            } else {
                let mut payload: Vec<u8> = Vec::new();
                payload.push(EQUALS);
                Ok(self.token(TokenRegistry::YYUNDEF, payload))
            }
        } else {
            let mut payload: Vec<u8> = Vec::new();
            payload.push(b);
            Ok(self.token(TokenRegistry::YYUNDEF, payload))
        }
    }

    /// Reads the reserved word or identifier at the front of the input. A
    /// word that runs to the end of the input, with a failure of the source
    /// after it, comes back as the token that reports the failure.
    fn read_keyword_or_id(&mut self) -> (r: Result<Token, Token>)
        requires
            old(self).wf(),
            old(self).anchor() == old(self).pos(),
        ensures
            ({
                let s = old(self).remaining();
                let stopped = word(s).len == s.len() && old(self).ending() is Some;
                match r {
                    Ok(t) => !stopped && old(self).reads(final(self), word(s), t@),
                    Err(t) => stopped && old(self).fails(final(self), t@),
                }
            }),
    {
        let bytes = self.take_while(byte_is_alphanumeric, Ghost(alphanumeric()))?;
        proof {
            reveal_strlit("class");
            reveal_strlit("extends");
            reveal_strlit("is");
            reveal_strlit("end");
            reveal_strlit("var");
            reveal_strlit("method");
            reveal_strlit("this");
            reveal_strlit("while");
            reveal_strlit("loop");
            reveal_strlit("if");
            reveal_strlit("then");
            reveal_strlit("else");
            reveal_strlit("return");
        }
        if spells(&bytes, "class") {
            Ok(self.empty_token(TokenRegistry::kCLASS))
        } else if spells(&bytes, "extends") {
            Ok(self.empty_token(TokenRegistry::kEXTENDS))
        } else if spells(&bytes, "is") {
            Ok(self.empty_token(TokenRegistry::kIS))
        } else if spells(&bytes, "end") {
            Ok(self.empty_token(TokenRegistry::kEND))
        } else if spells(&bytes, "var") {
            Ok(self.empty_token(TokenRegistry::kVAR))
        } else if spells(&bytes, "method") {
            Ok(self.empty_token(TokenRegistry::kMETHOD))
        } else if spells(&bytes, "this") {
            Ok(self.empty_token(TokenRegistry::kTHIS))
        } else if spells(&bytes, "while") {
            Ok(self.empty_token(TokenRegistry::kWHILE))
        } else if spells(&bytes, "loop") {
            Ok(self.empty_token(TokenRegistry::kLOOP))
        } else if spells(&bytes, "if") {
            Ok(self.empty_token(TokenRegistry::kIF))
        } else if spells(&bytes, "then") {
            Ok(self.empty_token(TokenRegistry::kTHEN))
        } else if spells(&bytes, "else") {
            Ok(self.empty_token(TokenRegistry::kELSE))
        } else if spells(&bytes, "return") {
            Ok(self.empty_token(TokenRegistry::kRETURN))
        } else {
            Ok(self.token(TokenRegistry::tIDENTIFIER, bytes))
        }
    }

    /// Reads the numeral at the front of the input. A numeral that runs to
    /// the end of the input, with a failure of the source after it, comes
    /// back as the token that reports the failure; any other numeral that is
    /// no unsigned 32-bit number comes back as an error token.
    fn read_numeric(&mut self) -> (r: Result<Token, Token>)
        requires
            old(self).wf(),
            old(self).anchor() == old(self).pos(),
            old(self).remaining().len() > 0,
        ensures
            ({
                let s = old(self).remaining();
                let stopped = numeral(s).len == s.len() && old(self).ending() is Some;
                match r {
                    Ok(t) => {
                        &&& !stopped
                        &&& old(self).reads(final(self), numeral(s), t@)
                        &&& t.token_type == TokenRegistry::tINTEGER
                    },
                    Err(t) => if stopped {
                        old(self).fails(final(self), t@)
                    } else {
                        &&& old(self).reads(final(self), numeral(s), t@)
                        &&& t.token_type == TokenRegistry::YYerror
                    },
                }
            }),
    {
        let ghost input = self.remaining();
        let negated = if self.peek()? == MINUS {
            self.next_maybe()?;
            true
        } else {
            false
        };
        let ghost sign: nat = if negated { 1 } else { 0 };
        let ghost rest = input.skip(sign as int);
        assert(self.remaining() =~= rest);
        let bytes = self.take_while(byte_is_digit, Ghost(digit()))?;
        proof {
            lemma_run_len_bounds(rest, digit());
            assert(bytes@ =~= input.subrange(sign as int, (sign + bytes@.len()) as int));
            assert forall|i: int| 0 <= i < bytes@.len() implies is_digit(#[trigger] bytes@[i]) by {
                assert(digit()(rest[i]));
            }
        }
        if !spells_u32(&bytes) {
            proof {
                reveal_strlit("Invalid num encountered");
            }
            return Err(self.make_err(ascii_bytes("Invalid num encountered")));
        }
        let mut value: Vec<u8> = Vec::new();
        if negated {
            value.push(MINUS);
        }
        value.extend_from_slice(bytes.as_slice());
        assert(value@ =~= input.take((sign + bytes@.len()) as int));
        Ok(self.token(TokenRegistry::tINTEGER, value))
    }

    /// Reads one token: passes over whitespace or a comment, marks where the
    /// token begins, and reads the terminal that the next byte announces.
    /// The end of input and an error, of a numeral or of the source, come
    /// back as `Err`, and nothing else does.
    fn next_token(&mut self) -> (r: Result<Token, Token>)
        requires
            old(self).wf(),
        ensures
            match r {
                Ok(t) => {
                    &&& old(self).scans(final(self), t@)
                    &&& t.token_type != TokenRegistry::YYEOF
                    &&& t.token_type != TokenRegistry::YYerror
                },
                Err(t) => {
                    &&& old(self).scans(final(self), t@)
                    &&& (t.token_type == TokenRegistry::YYEOF || t.token_type
                        == TokenRegistry::YYerror)
                },
            },
    {
        let ghost input = self.remaining();
        let peek = self.peek()?;

        if byte_is_whitespace(peek) {
            self.skip_while(byte_is_whitespace, Ghost(whitespace()))?;
        }
        if peek == SLASH {
            self.next()?;
            // A second slash opens a comment that runs to the end of the
            // line. Block comments are not recognised: a `*` here is left
            // for the dispatch below, like any other byte.
            let second = self.peek()?;
            assert(second == input[1]) by {
                assert(input.skip(1)[0] == input[1]);
            }
            if second == SLASH {
                self.skip_while(byte_is_not_line_break, Ghost(not_line_break()))?;
                proof {
                    lemma_run_len_bounds(input.skip(1), not_line_break());
                }
            }
        }
        self.pin_loc();
        let ghost skipped = lead(input);
        let ghost rest = input.skip(skipped as int);
        assert(self.remaining() =~= rest);
        proof {
            lemma_lead_within(input);
            lemma_lexeme_within(rest);
        }

        let b = self.peek()?;
        if byte_is_letter(b) {
            self.read_keyword_or_id()
        } else if byte_is_digit(b) || b == MINUS {
            self.read_numeric()
        } else {
            self.read_symbolic()
        }
    }

    /// Reads the next token of the input.
    ///
    /// The token is the one that `outcome` gives, and the lexer moves past
    /// the bytes that `outcome` counts. On a stream that ends after the
    /// input, and in every call that does not look past the end of the
    /// input, that is what `scan` gives; at the end of the input the token
    /// marks the end and the lexer stays where it is. Where a call looks past
    /// the end of the input and the source fails there, the token reports
    /// the failure with the text that the source renders its error to, and
    /// the lexer stays at the end of the input, fit to be called again.
    pub fn yylex(&mut self) -> (t: Token)
        requires
            old(self).wf(),
        ensures
            old(self).scans(final(self), t@),
            TokenRegistry::is_terminal(t.token_type),
    {
        match self.next_token() {
            Ok(t) => t,
            Err(t) => t,
        }
    }
}

impl<'a> Lexer<StrSource<'a>> {
    /// A lexer over the bytes of a string held in memory.
    pub fn of_str(str: &'a str) -> (lexer: Self)
        ensures
            lexer.wf(),
            lexer.remaining() == str.spec_bytes(),
            lexer.ending() is None,
            lexer.pos() == 0,
            lexer.anchor() == 0,
    {
        Self::new(StrSource::new(str))
    }
}

} // verus!
