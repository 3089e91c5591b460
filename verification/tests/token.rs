use shiperon::lexer::Token;
use shiperon::{Lexer, ParserLoc, ParserValue, TokenRegistry};

fn token(token_type: i32, payload: &[u8], begin: u32, end: u32) -> Token {
    Token { token_type, token_value: payload.to_vec(), loc: ParserLoc { begin, end } }
}

fn render(input: &str) -> String {
    let mut lexer = Lexer::of_str(input);
    let mut result: Vec<Token> = Vec::new();
    loop {
        let token = lexer.yylex();
        let token_type = token.token_type;
        result.push(token);
        if token_type == TokenRegistry::YYEOF {
            break;
        }
    }
    result.iter().map(|t| t.to_string()).collect::<Vec<String>>().join("\n")
}

#[test]
fn integration() {
    let result = render("class A is\n  var x : Integer := -42\nend\n");
    let expected = [
        "[ (000..005)\tkCLASS ]",
        "[ (006..007)\ttIDENTIFIER A]",
        "[ (008..010)\tkIS ]",
        "[ (013..016)\tkVAR ]",
        "[ (017..018)\ttIDENTIFIER x]",
        "[ (019..020)\ttCOLON ]",
        "[ (021..028)\ttIDENTIFIER Integer]",
        "[ (029..031)\ttASSIGN ]",
        "[ (032..035)\ttINTEGER -42]",
        "[ (036..039)\tkEND ]",
        "[ (040..040)\tEOF ]",
    ]
    .join("\n");
    assert_eq!(result, expected);
}

#[test]
fn rendering_of_error_and_undefined_tokens() {
    assert_eq!(
        render("4294967296 $"),
        "[ (000..010)\tYYerror Invalid num encountered]\n[ (011..012)\tYYUNDEF $]\n[ (012..012)\tEOF ]"
    );
}

#[test]
fn rendering_pads_offsets_to_three_digits() {
    assert_eq!(token(TokenRegistry::kEND, b"", 0, 3).to_string(), "[ (000..003)\tkEND ]");
    assert_eq!(token(TokenRegistry::kEND, b"", 9, 10).to_string(), "[ (009..010)\tkEND ]");
    assert_eq!(token(TokenRegistry::kEND, b"", 99, 100).to_string(), "[ (099..100)\tkEND ]");
    assert_eq!(token(TokenRegistry::kEND, b"", 999, 1000).to_string(), "[ (999..1000)\tkEND ]");
    assert_eq!(
        token(TokenRegistry::kEND, b"", 1234567, 4294967295).to_string(),
        "[ (1234567..4294967295)\tkEND ]"
    );
}

#[test]
fn rendering_of_a_payload_that_is_no_text() {
    assert_eq!(
        token(TokenRegistry::YYUNDEF, &[0xC3], 4, 5).to_string(),
        "[ (004..005)\tYYUNDEF invalid value]"
    );
    assert_eq!(
        token(TokenRegistry::YYUNDEF, &[0xFF, 0x41], 4, 5).to_string(),
        "[ (004..005)\tYYUNDEF invalid value]"
    );
    assert_eq!(
        token(TokenRegistry::tIDENTIFIER, "é".as_bytes(), 4, 6).to_string(),
        "[ (004..006)\ttIDENTIFIER é]"
    );
}

#[test]
fn rendered_token_matches_format() {
    let t = token(TokenRegistry::tIDENTIFIER, b"abc", 7, 10);
    let expected = format!(
        "[ ({:0>3}..{:0>3})\t{} {}]",
        t.loc.begin,
        t.loc.end,
        t.terminal_name(),
        std::str::from_utf8(&t.token_value).unwrap_or("invalid value"),
    );
    assert_eq!(t.to_string(), expected);
}

#[test]
fn terminal_names() {
    let names = [
        (TokenRegistry::YYEOF, "EOF"),
        (TokenRegistry::YYerror, "YYerror"),
        (TokenRegistry::YYUNDEF, "YYUNDEF"),
        (TokenRegistry::kCLASS, "kCLASS"),
        (TokenRegistry::kEXTENDS, "kEXTENDS"),
        (TokenRegistry::kIS, "kIS"),
        (TokenRegistry::kEND, "kEND"),
        (TokenRegistry::kVAR, "kVAR"),
        (TokenRegistry::kMETHOD, "kMETHOD"),
        (TokenRegistry::kTHIS, "kTHIS"),
        (TokenRegistry::kWHILE, "kWHILE"),
        (TokenRegistry::kLOOP, "kLOOP"),
        (TokenRegistry::kIF, "kIF"),
        (TokenRegistry::kTHEN, "kTHEN"),
        (TokenRegistry::kELSE, "kELSE"),
        (TokenRegistry::kRETURN, "kRETURN"),
        (TokenRegistry::tIDENTIFIER, "tIDENTIFIER"),
        (TokenRegistry::tINTEGER, "tINTEGER"),
        (TokenRegistry::tDOT, "tDOT"),
        (TokenRegistry::tCOMMA, "tCOMMA"),
        (TokenRegistry::tLPAREN, "tLPAREN"),
        (TokenRegistry::tRPAREN, "tRPAREN"),
        (TokenRegistry::tCOLON, "tCOLON"),
        (TokenRegistry::tASSIGN, "tASSIGN"),
        (TokenRegistry::tARROW, "tARROW"),
    ];
    for (id, name) in names {
        assert_eq!(token(id, b"", 0, 0).terminal_name(), name);
    }
}

#[test]
fn terminal_codes_are_distinct() {
    let ids = [
        TokenRegistry::YYEOF,
        TokenRegistry::YYerror,
        TokenRegistry::YYUNDEF,
        TokenRegistry::kCLASS,
        TokenRegistry::kEXTENDS,
        TokenRegistry::kIS,
        TokenRegistry::kEND,
        TokenRegistry::kVAR,
        TokenRegistry::kMETHOD,
        TokenRegistry::kTHIS,
        TokenRegistry::kWHILE,
        TokenRegistry::kLOOP,
        TokenRegistry::kIF,
        TokenRegistry::kTHEN,
        TokenRegistry::kELSE,
        TokenRegistry::kRETURN,
        TokenRegistry::tIDENTIFIER,
        TokenRegistry::tINTEGER,
        TokenRegistry::tDOT,
        TokenRegistry::tCOMMA,
        TokenRegistry::tLPAREN,
        TokenRegistry::tRPAREN,
        TokenRegistry::tCOLON,
        TokenRegistry::tASSIGN,
        TokenRegistry::tARROW,
    ];
    for (i, a) in ids.iter().enumerate() {
        for b in &ids[i + 1..] {
            assert_ne!(a, b);
        }
    }
    assert_eq!(TokenRegistry::YYEOF, 0);
    assert_eq!(TokenRegistry::YYerror, 256);
    assert_eq!(TokenRegistry::YYUNDEF, 257);
}

#[test]
fn a_code_outside_the_registry_has_the_name_of_the_undefined_terminal() {
    assert_eq!(token(-1, b"", 0, 0).terminal_name(), "YYUNDEF");
    assert_eq!(token(1, b"", 0, 0).terminal_name(), "YYUNDEF");
    assert_eq!(token(255, b"", 0, 0).terminal_name(), "YYUNDEF");
    assert_eq!(token(280, b"", 0, 0).terminal_name(), "YYUNDEF");
    assert_eq!(token(i32::MAX, b"", 0, 0).terminal_name(), "YYUNDEF");
}

#[test]
fn token_clone_keeps_every_field() {
    let t = token(TokenRegistry::tINTEGER, b"12", 3, 5);
    let c = t.clone();
    assert_eq!(c.token_type, t.token_type);
    assert_eq!(c.token_value, t.token_value);
    assert_eq!(c.loc, t.loc);
}

#[test]
fn location_defaults_to_the_start() {
    assert_eq!(ParserLoc::default(), ParserLoc { begin: 0, end: 0 });
}

#[test]
fn value_slot_defaults_to_stolen() {
    assert!(matches!(ParserValue::default(), ParserValue::Stolen));
    assert!(!ParserValue::default().is_uninitialized());
}

#[test]
fn value_slot_from_token_holds_the_token() {
    let slot = ParserValue::from_token(token(TokenRegistry::tIDENTIFIER, b"x", 1, 2));
    match &slot {
        ParserValue::Token(t) => {
            assert_eq!(t.token_type, TokenRegistry::tIDENTIFIER);
            assert_eq!(t.token_value, b"x".to_vec());
            assert_eq!(t.loc, ParserLoc { begin: 1, end: 2 });
        }
        _ => panic!("the slot holds no token"),
    }
    assert!(!slot.is_uninitialized());
}

#[test]
fn value_slot_uninitialized() {
    assert!(ParserValue::new_uninitialized().is_uninitialized());
    assert!(matches!(ParserValue::new_uninitialized(), ParserValue::Uninitialized));
    assert!(!ParserValue::Empty.is_uninitialized());
    assert!(!ParserValue::Stolen.is_uninitialized());
}

#[test]
fn location_as_text() {
    assert_eq!(ParserLoc { begin: 0, end: 0 }.to_string(), "0...0");
    assert_eq!(ParserLoc { begin: 7, end: 12 }.to_string(), "7...12");
    assert_eq!(ParserLoc { begin: 100, end: 4294967295 }.to_string(), "100...4294967295");
    let loc = ParserLoc { begin: 41, end: 1000 };
    assert_eq!(loc.to_string(), format!("{}...{}", loc.begin, loc.end));
}
