use wst::diagnostics::{parse_source, SourceError};
use wst::grammar::ParseError;
use wst::lexer::{LexError, Lexer, Token};
use wst::parser::Parser;

fn message_of(src: &str) -> String {
    match parse_source(src) {
        Ok(_) => panic!("expected an error for {:?}", src),
        Err(e) => e.message(),
    }
}

#[test]
fn parse_source_reads_a_file() {
    let f = parse_source("enum E { A, B }").unwrap();
    assert_eq!(f.definitions.len(), 1);
}

#[test]
fn parse_source_reports_lex_errors() {
    match parse_source("struct %") {
        Err(SourceError::Lex(LexError::UnexpectedChar { line, col, ch })) => {
            assert_eq!((line, col, ch), (1, 7, '%'));
        }
        other => panic!("unexpected {:?}", other),
    }
    assert_eq!(message_of("struct %"), "1:7: Unexpected character: '%'");
}

#[test]
fn unexpected_quote_character_is_escaped() {
    assert_eq!(message_of("\n  '"), "2:2: Unexpected character: '\\''");
}

#[test]
fn unterminated_string_message() {
    assert_eq!(message_of("\"abc"), "Unterminated string literal");
    assert_eq!(message_of("\"abc\\"), "Unterminated string escape");
}

#[test]
fn invalid_number_message() {
    assert_eq!(message_of("1.2.3"), "Invalid number: 1.2.3");
}

#[test]
fn unknown_keyword_message() {
    assert_eq!(message_of("blah Foo {};"), "1:0: Expected 'enum', 'variant', 'struct', 'protocol', or 'const', got 'blah'");
    assert_eq!(
        message_of("private blah Foo {};"),
        "1:8: Expected 'enum', 'variant', 'struct', 'protocol', or 'const' after 'private', got 'blah'"
    );
}

#[test]
fn token_shown_in_messages() {
    assert_eq!(message_of("struct 42"), "1:7: Expected identifier, got NumberLit(42.0)");
    assert_eq!(message_of("struct 2.50"), "1:7: Expected identifier, got NumberLit(2.5)");
    assert_eq!(message_of("struct \"a\\\"b\""), "1:7: Expected identifier, got StringLit(\"a\\\"b\")");
    assert_eq!(message_of("struct S x"), "1:9: Expected LBrace, got Ident(\"x\")");
    assert_eq!(message_of("struct"), "1:6: Expected identifier, got Eof");
}

#[test]
fn private_const_message() {
    assert_eq!(message_of("private const X = 1;"), "1:8: 'const' cannot be 'private'");
}

#[test]
fn bad_import_message() {
    assert_eq!(message_of("@notimport"), "Expected 'import' after '@', got 'notimport'");
}

#[test]
fn parse_error_message_matches_variant() {
    let tokens = Lexer::new("enum E { 1 }").tokenize().unwrap();
    let err = Parser::new(tokens).parse_file().unwrap_err();
    assert!(matches!(err, ParseError::ExpectedCase { line: 1, col: 9, got: Token::NumberLit(_) }));
    assert_eq!(err.message(), "1:9: Expected case name or '}', got NumberLit(1.0)");
}

#[test]
fn validate_single_invalid_file() {
    // The text of the file; reading it is the program's part.
    let err = parse_source("struct Broken { id = #required, };").unwrap_err();
    assert!(!err.message().is_empty());
}

#[test]
fn numbers_in_messages_match_float_debug() {
    for (text, value) in [
        ("10000000000000000", 1e16f64),
        ("1000000000000000", 1e15),
        ("1234500000000000000", 1.2345e18),
        ("0.00001", 1e-5),
        ("0.0001", 1e-4),
        ("0.000012300", 1.23e-5),
        ("42", 42.0),
        ("2.50", 2.5),
        ("0", 0.0),
    ] {
        assert_eq!(
            message_of(&format!("struct {}", text)),
            format!("1:7: Expected identifier, got NumberLit({:?})", value),
            "{}",
            text
        );
    }
}

#[test]
fn control_characters_escaped_like_debug() {
    assert_eq!(message_of("\u{1}"), format!("1:0: Unexpected character: {:?}", '\u{1}'));
    assert_eq!(message_of("\u{9f}"), format!("1:0: Unexpected character: {:?}", '\u{9f}'));
    let text = "a\u{7f}b\u{1b}";
    assert_eq!(
        message_of(&format!("struct \"{}\"", text)),
        format!("1:7: Expected identifier, got StringLit({:?})", text)
    );
}

#[test]
fn unprintable_and_combining_characters_escaped_like_debug() {
    let mut checked = 0;
    for c in ['\u{ad}', '\u{200b}', '\u{301}', '\u{0}', '~', '\u{7f}'] {
        let src = format!("\n{}", c);
        match parse_source(&src) {
            Err(SourceError::Lex(LexError::UnexpectedChar { .. })) => {
                checked += 1;
                assert_eq!(message_of(&src), format!("2:0: Unexpected character: {:?}", c), "{:?}", c);
            }
            _ => {}
        }
    }
    assert!(checked >= 4);
    let text = "x\u{ad}\u{200b}\u{301}'\0\u{e9}";
    assert_eq!(
        message_of(&format!("struct \"{}\"", text)),
        format!("1:7: Expected identifier, got StringLit({:?})", text)
    );
}
