use wst::ast::{Definition, File, TagValue};
use wst::compiler::typescript::compile;
use wst::lexer::{Lexer, Token};
use wst::parser::Parser;

fn parse(src: &str) -> File {
    let tokens = Lexer::new(src).tokenize().unwrap();
    Parser::new(tokens).parse_file().unwrap()
}

#[test]
fn lexing_ends_with_a_single_eof() {
    for src in ["", "   // only a comment", "struct Foo { x = string };", "#a:b=\"c\" 1.5 true"] {
        let tokens = Lexer::new(src).tokenize().unwrap();
        assert!(matches!(tokens.last(), Some((Token::Eof, _, _))));
        assert_eq!(tokens.iter().filter(|(t, _, _)| *t == Token::Eof).count(), 1);
    }
}

#[test]
fn eof_stands_after_trailing_trivia() {
    let tokens = Lexer::new("#\n  // end\n").tokenize().unwrap();
    assert_eq!(tokens.last().unwrap(), &(Token::Eof, 3, 0));
}

#[test]
fn tags_without_value_are_true() {
    let f = parse("struct Foo { x = string #myorg:indexed #required }");
    let Definition::Struct(s) = &f.definitions[0] else { panic!() };
    assert!(s.fields[0].tags.iter().all(|t| matches!(t.value, TagValue::Bool(true))));
}

#[test]
fn protocols_do_not_change_typescript() {
    let without = compile(&parse("enum E { A } struct S { e = E }"), &Vec::new());
    let with = compile(&parse("enum E { A } protocol P { \"/x\" <S, S> } struct S { e = E }"), &Vec::new());
    assert_eq!(with, without);
}

#[test]
fn wst_extension_is_dropped_from_import_lines() {
    let out = compile(&parse("@import ./models/user.wst { User };"), &Vec::new());
    assert_eq!(out, "import type { User } from \"./models/user\";\n\n");
}

#[test]
fn private_types_take_part_in_copies_and_assertions() {
    let src = "private enum Env { a, b } private struct Base { a = string } struct C { copy Base, b = string, assert ($s) { for $k in Env { $s haskey $k } }, }";
    let f = parse(src);
    assert!(wst::validator::validate(&f, &Vec::new()).is_empty());
    let out = compile(&f, &Vec::new());
    assert!(out.contains("export interface C {\n  a?: string | null;\n  b?: string | null;\n}\n"));
}

#[test]
fn copied_struct_compiles_like_written_out() {
    let copied = compile(&parse("struct Base { id = int64 #required } struct Ext { copy Base, email = string }"), &Vec::new());
    let written = compile(&parse("struct Base { id = int64 #required } struct Ext { id = int64 #required, email = string }"), &Vec::new());
    assert_eq!(copied, written);
}
