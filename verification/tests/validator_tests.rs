use wst::ast::File;
use wst::compiler::copies_terminate;
use wst::lexer::Lexer;
use wst::parser::Parser;
use wst::validator::{validate, validation_definitions, validation_terminates};

fn parse(src: &str) -> File {
    let tokens = Lexer::new(src).tokenize().unwrap();
    Parser::new(tokens).parse_file().unwrap()
}

/// Validates a file without imports.
fn errors(src: &str) -> Vec<String> {
    validate(&parse(src), &Vec::new())
}

/// Validates a file whose imports gave `loads`.
fn errors_with(src: &str, loads: Vec<Result<File, String>>) -> Vec<String> {
    validate(&parse(src), &loads)
}

#[test]
fn valid_file_has_no_errors() {
    let src = "enum Env { production, staging }\n\
               struct Base { id = int64 #required }\n\
               struct Config {\n\
                   copy Base,\n\
                   Env.production = string,\n\
                   Env.staging = string,\n\
                   assert ($s) { for $k in Env { $s haskey $k } },\n\
               }\n\
               const DEFAULT_ENV = Env.production;";
    assert_eq!(errors(src), Vec::<String>::new());
}

#[test]
fn duplicate_definition_reported() {
    assert_eq!(errors("enum A { X } struct A { y = string }"), vec!["'A' is defined more than once".to_string()]);
}

#[test]
fn unknown_tag_reported() {
    assert_eq!(
        errors("struct S { x = string #foo }"),
        vec!["Unknown tag '#foo'; custom tags require a namespace prefix (e.g. '#myorg:foo')".to_string()]
    );
}

#[test]
fn namespaced_tag_accepted() {
    assert!(errors("struct S { x = string #myorg:foo=3 }").is_empty());
}

#[test]
fn struct_only_tag_on_enum_case_reported() {
    assert_eq!(errors("enum E { A #required }"), vec!["'#required' is only valid on struct fields".to_string()]);
}

#[test]
fn struct_only_tag_on_definition_reported() {
    assert_eq!(errors("struct S #optional { x = string }"), vec!["'#optional' is only valid on struct fields".to_string()]);
}

#[test]
fn undefined_type_reported_with_line() {
    assert_eq!(errors("struct S {\n  x = Missing,\n}"), vec!["2:0: Undefined type 'Missing'".to_string()]);
}

#[test]
fn undefined_type_inside_vec_and_map() {
    assert_eq!(
        errors("struct S { a = vec<A>, b = map<string, B> }"),
        vec!["1:0: Undefined type 'A'".to_string(), "1:0: Undefined type 'B'".to_string()]
    );
}

#[test]
fn protocol_types_checked() {
    assert_eq!(
        errors("struct Req { } protocol P { \"/ep\" <Req, Res !Err> }"),
        vec!["1:0: Undefined type 'Res'".to_string(), "1:0: Undefined type 'Err'".to_string()]
    );
}

#[test]
fn namespace_import_makes_qualified_names_known() {
    let dep = parse("struct User { }");
    assert!(errors_with("@import ./m.wst *M; struct S { u = M.User }", vec![Ok(dep)]).is_empty());
}

#[test]
fn unloadable_import_reported() {
    assert_eq!(
        errors_with("@import ./gone.wst { A };", vec![Err("no such file".to_string())]),
        vec!["Cannot load import './gone.wst': no such file".to_string()]
    );
}

#[test]
fn private_type_cannot_be_imported() {
    let dep = parse("private struct P { a = string }");
    assert_eq!(
        errors_with("@import ./m.wst { P }; struct S { p = P }", vec![Ok(dep)]),
        vec!["'P' is private in './m.wst'".to_string(), "1:0: Undefined type 'P'".to_string()]
    );
}

#[test]
fn missing_export_reported() {
    let dep = parse("struct P { a = string }");
    assert_eq!(
        errors_with("@import ./m.wst { Q };", vec![Ok(dep)]),
        vec!["'Q' is not exported by './m.wst'".to_string()]
    );
}

#[test]
fn copy_import_brings_definitions() {
    let dep = parse("struct Base { id = int64 } private struct Hidden { h = string }");
    let src = "@import ./m.wst ^copy { Base, Hidden }; struct S { copy Base, x = string }";
    let file = parse(src);
    let loads = vec![Ok(dep)];
    assert!(validate(&file, &loads).is_empty());
    let all = validation_definitions(&file, &loads);
    assert_eq!(all.len(), 2);
    assert_eq!(wst::compiler::def_name(&all[0]), "Base");
    assert_eq!(wst::compiler::def_name(&all[1]), "S");
}

#[test]
fn copy_of_undefined_struct_reported() {
    assert_eq!(errors("struct S { copy Nope, x = string }"), vec!["Undefined struct 'Nope' in copy".to_string()]);
}

#[test]
fn copy_of_non_struct_reported() {
    assert_eq!(errors("enum E { A } struct S { copy E }"), vec!["'E' is not a struct; only structs can be copied".to_string()]);
}

#[test]
fn exclude_of_missing_field_reported() {
    assert_eq!(
        errors("struct B { a = string } struct S { copy @exclude(B, [\"zz\"]) }"),
        vec!["Field 'zz' does not exist in struct 'B'".to_string()]
    );
}

#[test]
fn duplicate_copied_field_reported() {
    assert_eq!(
        errors("struct B { a = string } struct S { copy B, a = string }"),
        vec!["Duplicate field 'a' in struct 'S' (from copy of 'B')".to_string()]
    );
}

#[test]
fn assertion_missing_case_reported() {
    let src = "enum Env { production, staging }\nstruct C {\n  Env.production = string,\n  assert ($s) { for $k in Env { $s haskey $k } },\n}";
    assert_eq!(errors(src), vec!["4:0: Assertion failed: struct 'C' is missing field 'staging'".to_string()]);
}

#[test]
fn named_assertion_reported_at_call_site() {
    let src = "assertion Covers (struct $s) { for $k in Env { $s haskey $k } }\nenum Env { a, b }\nstruct C {\n  a = string,\n  assert Covers,\n}";
    assert_eq!(errors(src), vec!["5:0: Assertion failed: struct 'C' is missing field 'b'".to_string()]);
}

#[test]
fn undefined_assertion_reported() {
    assert_eq!(errors("struct C { x = string, assert Nope, }"), vec!["1:0: Undefined assertion 'Nope'".to_string()]);
}

#[test]
fn assertion_over_unknown_enum_reported() {
    assert_eq!(
        errors("struct C { x = string, assert ($s) { for $k in Missing { $s haskey $k } }, }"),
        vec!["1:0: Enum 'Missing' not found for assertion on 'C'; only locally-defined and ^copy-imported enums can be used".to_string()]
    );
}

#[test]
fn unbound_metavariable_reported() {
    assert_eq!(
        errors("enum E { a } struct C { a = string, assert ($s) { for $k in E { $s haskey $j } }, }"),
        vec!["1:0: In assertion on 'C': '$j'  is not bound (not a loop variable)".to_string()]
    );
}

#[test]
fn copied_fields_count_for_assertions() {
    let src = "enum E { a, b } struct Base { a = string } struct C { copy Base, b = string, assert ($s) { for $k in E { $s haskey $k } }, }";
    assert!(errors(src).is_empty());
}

#[test]
fn field_key_qualifier_checked() {
    assert_eq!(errors("struct S { Q.x = string }"), vec!["1:0: 'Q' in field key 'Q.x' is not defined".to_string()]);
    assert_eq!(errors("enum E { a } struct S { E.b = string }"), vec!["1:0: 'b' is not a case of enum 'E'".to_string()]);
    assert_eq!(errors("struct T { } struct S { T.b = string }"), vec!["1:0: 'T' in field key 'T.b' is not an enum".to_string()]);
}

#[test]
fn constant_name_must_be_screaming_case() {
    assert_eq!(
        errors("enum E { A } const bad_name = E.A;"),
        vec!["Constant 'bad_name' must be SCREAMING_CASE (e.g. MY_CONSTANT)".to_string()]
    );
    assert!(errors("const MAX_2 = 3;").is_empty());
}

#[test]
fn duplicate_assertion_reported() {
    let src = "enum E { a } assertion A (struct $s) { for $k in E { $s haskey $k } } assertion A (struct $s) { for $k in E { $s haskey $k } }";
    assert_eq!(errors(src), vec!["Assertion 'A' is defined more than once".to_string()]);
}

#[test]
fn errors_keep_their_order() {
    let src = "struct A { x = Nope #bad } struct A { }";
    assert_eq!(
        errors(src),
        vec![
            "'A' is defined more than once".to_string(),
            "1:0: Undefined type 'Nope'".to_string(),
            "Unknown tag '#bad'; custom tags require a namespace prefix (e.g. '#myorg:bad')".to_string(),
        ]
    );
}

#[test]
fn cyclic_copies_detected() {
    let f = parse("struct A { copy B } struct B { copy A }");
    assert!(!copies_terminate(&f.definitions, &f.definitions));
    let g = parse("struct A { a = string } struct B { copy A }");
    assert!(copies_terminate(&g.definitions, &g.definitions));
}

#[test]
fn validation_termination_detected() {
    let cyclic = parse("struct A { copy B } struct B { copy A }");
    assert!(!validation_terminates(&cyclic, &Vec::new()));
    let fine = parse("struct A { a = string } struct B { copy A }");
    assert!(validation_terminates(&fine, &Vec::new()));
    // A copy of a name that is first an enum is not resolved, so its cycle does not matter.
    let shadowed = parse("enum A { X } struct A { copy A } struct B { copy A }");
    assert!(validation_terminates(&shadowed, &Vec::new()));
    assert_eq!(
        validate(&shadowed, &Vec::new()),
        vec![
            "'A' is defined more than once".to_string(),
            "'A' is not a struct; only structs can be copied".to_string(),
            "'A' is not a struct; only structs can be copied".to_string(),
        ]
    );
}

#[test]
fn repeated_own_field_reported() {
    assert_eq!(
        errors("struct Foo { x = int64, x = string }"),
        vec!["Duplicate field 'x' in struct 'Foo'".to_string()]
    );
}

#[test]
fn own_duplicates_come_before_copied_ones() {
    assert_eq!(
        errors("struct B { a = string } struct S { copy B, a = string, a = int32 }"),
        vec![
            "Duplicate field 'a' in struct 'S'".to_string(),
            "Duplicate field 'a' in struct 'S' (from copy of 'B')".to_string(),
        ]
    );
}
