use shiperon::lexer::{ByteSource, StrSource};
use shiperon::{Lexer, ParserLoc, TokenRegistry};

#[test]
fn str_source_hands_out_bytes_in_order() {
    let mut src = StrSource::new("ab");
    assert_eq!(src.peek(), Ok(Some(b'a')));
    assert_eq!(src.peek(), Ok(Some(b'a')));
    assert_eq!(src.next(), Ok(Some(b'a')));
    assert_eq!(src.next(), Ok(Some(b'b')));
    assert_eq!(src.peek(), Ok(None));
    assert_eq!(src.next(), Ok(None));
    assert_eq!(src.next(), Ok(None));
}

#[test]
fn str_source_of_empty_string_is_at_its_end() {
    let mut src = StrSource::new("");
    assert_eq!(src.peek(), Ok(None));
    assert_eq!(src.next(), Ok(None));
}

#[test]
fn str_source_hands_out_utf8_bytes() {
    let mut src = StrSource::new("é");
    assert_eq!(src.next(), Ok(Some(0xC3)));
    assert_eq!(src.next(), Ok(Some(0xA9)));
    assert_eq!(src.next(), Ok(None));
}

#[test]
fn str_source_error_renders_as_empty_text() {
    assert_eq!(StrSource::report_error(&()), "");
}

/// A source that hands out its bytes and then fails, over and over.
#[derive(Debug)]
struct Failing {
    bytes: Vec<u8>,
    at: usize,
    error: String,
}

impl ByteSource for Failing {
    type Error = String;

    fn peek(&mut self) -> Result<Option<u8>, &String> {
        match self.bytes.get(self.at) {
            Some(b) => Ok(Some(*b)),
            None => Err(&self.error),
        }
    }

    fn next(&mut self) -> Result<Option<u8>, String> {
        match self.bytes.get(self.at) {
            Some(b) => {
                self.at += 1;
                Ok(Some(*b))
            }
            None => Err(self.error.clone()),
        }
    }

    fn report_error(e: &String) -> String {
        format!("read failed: {e}")
    }
}

#[test]
fn source_failure_becomes_an_error_token() {
    let src = Failing { bytes: b"var ".to_vec(), at: 0, error: "disk on fire".to_string() };
    let mut lexer = Lexer::new(src);
    let first = lexer.yylex();
    assert_eq!(first.token_type, TokenRegistry::kVAR);
    assert_eq!(first.loc, ParserLoc { begin: 0, end: 3 });
    // The call passes over the blank, looks for the byte after it and meets
    // the failure. No token was begun, so the mark is still where the
    // token before was begun.
    let second = lexer.yylex();
    assert_eq!(second.token_type, TokenRegistry::YYerror);
    assert_eq!(second.token_value, b"read failed: disk on fire".to_vec());
    assert_eq!(second.loc, ParserLoc { begin: 0, end: 4 });
    // The failure stays in the source, so every later call reports it again.
    for _ in 0..3 {
        let later = lexer.yylex();
        assert_eq!(later.token_type, TokenRegistry::YYerror);
        assert_eq!(later.token_value, b"read failed: disk on fire".to_vec());
        assert_eq!(later.loc, ParserLoc { begin: 0, end: 4 });
    }
}

#[test]
fn source_failure_at_the_first_read() {
    let src = Failing { bytes: Vec::new(), at: 0, error: "no such device".to_string() };
    let mut lexer = Lexer::new(src);
    for _ in 0..2 {
        let t = lexer.yylex();
        assert_eq!(t.token_type, TokenRegistry::YYerror);
        assert_eq!(t.token_value, b"read failed: no such device".to_vec());
        assert_eq!(t.loc, ParserLoc { begin: 0, end: 0 });
    }
}

#[test]
fn source_failure_in_the_middle_of_a_word() {
    // A word that runs up to the failure is not handed out: only the byte
    // after it would show where it ends.
    let src = Failing { bytes: b"x whi".to_vec(), at: 0, error: "gone".to_string() };
    let mut lexer = Lexer::new(src);
    let x = lexer.yylex();
    assert_eq!(x.token_type, TokenRegistry::tIDENTIFIER);
    let t = lexer.yylex();
    assert_eq!(t.token_type, TokenRegistry::YYerror);
    assert_eq!(t.token_value, b"read failed: gone".to_vec());
    assert_eq!(t.loc, ParserLoc { begin: 2, end: 5 });
    let again = lexer.yylex();
    assert_eq!(again.token_type, TokenRegistry::YYerror);
    assert_eq!(again.loc, ParserLoc { begin: 2, end: 5 });
}

#[test]
fn source_failure_after_a_token_that_needs_no_look_ahead() {
    // A parenthesis is complete without the byte after it; the failure
    // shows in the next call.
    let src = Failing { bytes: b":=(".to_vec(), at: 0, error: "gone".to_string() };
    let mut lexer = Lexer::new(src);
    let assign = lexer.yylex();
    assert_eq!(assign.token_type, TokenRegistry::tASSIGN);
    let paren = lexer.yylex();
    assert_eq!(paren.token_type, TokenRegistry::tLPAREN);
    assert_eq!(paren.loc, ParserLoc { begin: 2, end: 3 });
    let t = lexer.yylex();
    assert_eq!(t.token_type, TokenRegistry::YYerror);
    assert_eq!(t.loc, ParserLoc { begin: 2, end: 3 });
}

#[test]
fn source_failure_after_a_colon_a_minus_and_a_slash() {
    let cases = [
        (&b":"[..], 0, 1),
        (b"=", 0, 1),
        (b"-", 0, 1),
        (b"12", 0, 2),
        (b"/", 0, 1),
        (b"// c", 0, 4),
        (b" \n", 0, 2),
    ];
    for (input, begin, end) in cases {
        let src = Failing { bytes: input.to_vec(), at: 0, error: "gone".to_string() };
        let mut lexer = Lexer::new(src);
        let t = lexer.yylex();
        assert_eq!(t.token_type, TokenRegistry::YYerror);
        assert_eq!(t.token_value, b"read failed: gone".to_vec());
        assert_eq!(t.loc, ParserLoc { begin, end });
    }
}

#[test]
fn peeked_byte_end_and_error() {
    let byte: Result<u8, String> = Ok(b'x');
    let error: Result<u8, String> = Err("broken".to_string());
    assert_eq!(shiperon::lexer::peeked(Some(&byte)), Ok(Some(b'x')));
    assert_eq!(shiperon::lexer::peeked::<String>(None), Ok(None));
    assert_eq!(shiperon::lexer::peeked(Some(&error)), Err(&"broken".to_string()));
}
