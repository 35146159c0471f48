use wst::lexer::{Lexer, Token};
use wst::text::is_whitespace;

#[test]
fn whitespace_agrees_with_std_on_every_char() {
    for c in (0u32..=0x10FFFF).filter_map(char::from_u32) {
        assert_eq!(is_whitespace(c), c.is_whitespace(), "{:?}", c);
    }
}

#[test]
fn ascii_letters_and_digits_classified() {
    for c in (0u32..0x80).filter_map(char::from_u32) {
        assert_eq!(c.is_alphabetic(), c.is_ascii_alphabetic(), "{:?}", c);
        assert_eq!(c.is_alphanumeric(), c.is_ascii_alphanumeric(), "{:?}", c);
    }
}

#[test]
fn unicode_whitespace_separates_tokens() {
    let tokens: Vec<Token> = Lexer::new("a\u{3000}b\u{2028}c").tokenize().unwrap().into_iter().map(|(t, _, _)| t).collect();
    assert_eq!(
        tokens,
        vec![Token::Ident("a".to_string()), Token::Ident("b".to_string()), Token::Ident("c".to_string()), Token::Eof]
    );
}

#[test]
fn unicode_letters_form_identifiers() {
    let tokens: Vec<Token> = Lexer::new("größe").tokenize().unwrap().into_iter().map(|(t, _, _)| t).collect();
    assert_eq!(tokens, vec![Token::Ident("größe".to_string()), Token::Eof]);
}
