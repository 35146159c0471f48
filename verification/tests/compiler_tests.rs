use wst::ast::{File, StructSource, Tag, TagValue};
use wst::compiler::typescript::{all_definitions, compile, field_key_of};
use wst::compiler::{def_name, has_tag, resolve_struct_source, strip_dot_slash, strip_wst_ext};
use wst::lexer::Lexer;
use wst::parser::Parser;

fn parse(src: &str) -> File {
    let tokens = Lexer::new(src).tokenize().unwrap();
    Parser::new(tokens).parse_file().unwrap()
}

fn field_names(fields: &[wst::ast::StructField]) -> Vec<String> {
    fields.iter().map(|f| f.name.clone()).collect()
}

#[test]
fn def_name_of_each_kind() {
    let f = parse("enum E { A } variant V { X = string } struct S { } protocol P { } const C = 1;");
    let names: Vec<&str> = f.definitions.iter().map(def_name).collect();
    assert_eq!(names, vec!["E", "V", "S", "P", "C"]);
}

#[test]
fn has_tag_ignores_namespaced_tags() {
    let tags = vec![
        Tag { namespace: Some("myorg".to_string()), name: "required".to_string(), value: TagValue::Bool(true) },
        Tag { namespace: None, name: "deprecated".to_string(), value: TagValue::Bool(true) },
    ];
    assert!(!has_tag(&tags, "required"));
    assert!(has_tag(&tags, "deprecated"));
    assert!(!has_tag(&[], "deprecated"));
}

#[test]
fn strip_wst_ext_only_at_end() {
    assert_eq!(strip_wst_ext("./foo.wst"), "./foo");
    assert_eq!(strip_wst_ext("./foo.wst.bak"), "./foo.wst.bak");
    assert_eq!(strip_wst_ext("wst"), "wst");
}

#[test]
fn strip_dot_slash_only_at_start() {
    assert_eq!(strip_dot_slash("./a/b.wst"), "a/b.wst");
    assert_eq!(strip_dot_slash("a/./b.wst"), "a/./b.wst");
    assert_eq!(strip_dot_slash("../b.wst"), "../b.wst");
}

#[test]
fn resolve_copies_then_own_fields() {
    let f = parse("struct A { a = string } struct B { copy A, b = string } struct C { copy B, c = string }");
    let src = StructSource::Named { name: "C".to_string() };
    let fields = resolve_struct_source(&src, &f.definitions).unwrap();
    assert_eq!(field_names(&fields), vec!["a", "b", "c"]);
}

#[test]
fn resolve_exclude_drops_listed_fields() {
    let f = parse("struct R { id = int64, name = string, internal = string }");
    let src = StructSource::Exclude { base: "R".to_string(), exclude: vec!["internal".to_string()] };
    let fields = resolve_struct_source(&src, &f.definitions).unwrap();
    assert_eq!(field_names(&fields), vec!["id", "name"]);
}

#[test]
fn resolve_missing_struct_fails_with_its_name() {
    let f = parse("enum R { A }");
    let src = StructSource::Named { name: "R".to_string() };
    let err = resolve_struct_source(&src, &f.definitions).unwrap_err();
    assert_eq!(err.name, "R");
    assert_eq!(err.message(), "Cannot resolve struct 'R' for copy");
}

#[test]
fn field_key_drops_qualifier() {
    assert_eq!(field_key_of("Env.production"), "production");
    assert_eq!(field_key_of("a.b.c"), "c");
    assert_eq!(field_key_of("plain"), "plain");
}

#[test]
fn struct_copy_in_typescript() {
    let out = compile(&parse("struct Base { id = int64 #required } struct Ext { copy Base, email = string #required }"), &Vec::new());
    assert!(out.contains("export interface Ext {\n  id: number;\n  email: string;\n}\n"));
}

#[test]
fn exclude_in_typescript() {
    let src = "struct Record { id = int64 #required, name = string #required, internal = string }\n\
               struct PublicRecord { copy @exclude(Record, [\"internal\"]), }";
    let out = compile(&parse(src), &Vec::new());
    assert!(out.contains("export interface PublicRecord {\n  id: number;\n  name: string;\n}\n"));
}

#[test]
fn explicit_optional_mode() {
    let out = compile(&parse("!optional_mode=explicit; struct Foo { bar = string, baz = string #required }"), &Vec::new());
    assert!(out.contains("  bar: string | null;\n  baz: string;\n"));
}

#[test]
fn nullable_required_field() {
    let out = compile(&parse("struct User { nickname = string #nullable #required }"), &Vec::new());
    assert!(out.contains("  nickname: string | null;\n"));
}

#[test]
fn constants_in_typescript() {
    let src = "enum ApiError { NotFound } struct Cfg { timeout_ms = int64, label = string }\n\
               const DEFAULT_ERROR = ApiError.NotFound;\n\
               const DEFAULT_CONFIG = Cfg { timeout_ms = 5000, label = \"de\\\"f\" };\n\
               const RATIO = 2.50;\n\
               const FLAG = true;";
    let out = compile(&parse(src), &Vec::new());
    assert!(out.contains("export const DEFAULT_ERROR: ApiError = ApiError.NotFound;\n\n"));
    assert!(out.contains("export const DEFAULT_CONFIG: Cfg = {\n  timeout_ms: 5000,\n  label: \"de\\\"f\",\n};\n\n"));
    assert!(out.contains("export const RATIO = 2.5;\n\n"));
    assert!(out.contains("export const FLAG = true;\n\n"));
}

#[test]
fn copied_definitions_come_first() {
    let dep = parse("struct Dep { x = string } struct Other { y = string }");
    let file = parse("@import ./dep.wst ^copy { Dep }; struct Own { copy Dep }");
    let copied = vec![dep];
    let all = all_definitions(&file, &copied);
    let names: Vec<&str> = all.iter().map(def_name).collect();
    assert_eq!(names, vec!["Dep", "Own"]);
    let out = compile(&file, &copied);
    assert_eq!(out, "export interface Dep {\n  x?: string | null;\n}\n\nexport interface Own {\n  x?: string | null;\n}\n\n");
}

#[test]
fn constants_fill_left_out_optional_fields_with_null() {
    let src = "struct Cfg { timeout_ms = int64 #required, label = string, gone = string #banned, note = string #nullable }\n\
               const C = Cfg { timeout_ms = 5 };";
    let out = compile(&parse(src), &Vec::new());
    assert!(out.contains("export const C: Cfg = {\n  timeout_ms: 5,\n  label: null,\n  note: null,\n};\n\n"));
}

#[test]
fn nested_and_copied_literals_are_filled() {
    let src = "struct Base { a = string } struct Inner { n = int32 #required, m = string }\n\
               struct Outer { copy Base, inner = Inner #required }\n\
               const C = Outer { inner = Inner { n = 1 } };";
    let out = compile(&parse(src), &Vec::new());
    assert!(out.contains("export const C: Outer = {\n  inner: {\n    n: 1,\n    m: null,\n  },\n  a: null,\n};\n\n"));
}

#[test]
fn literal_of_unknown_struct_is_not_filled() {
    let out = compile(&parse("const C = Remote { x = 1 };"), &Vec::new());
    assert!(out.contains("export const C: Remote = {\n  x: 1,\n};\n\n"));
}
