//! Properties that hold of the whole library, stated over the specifications
//! that its functions meet.
use vstd::prelude::*;
use crate::ast::{Tag, TagValue, TypeRef};
use crate::text::{decimal, first_dot};
use crate::compiler::{copy_resolves, find_struct, resolve_all, resolve_fields, resolved, source_base, without_names, without_wst_ext};
use crate::compiler::typescript::{
    OptionalMode, copied_fields, import_line, join_names, copies_ts, def_ts, defs_ts, field_key, field_ts, fields_ts, lemma_defs_ts_append, struct_ts, type_ts,
};
use crate::grammar::{PState, ParseError, next, p_definition, p_tag, tok};
use crate::lexer::{LexPos, Spanned, Token, lemma_skip_trivia_bounds, lemma_token_advances, lex, lex_from, lex_step, skip_trivia, token_at};
use crate::text::unicode_whitespace;
use crate::messages::{msg_enum_not_found, msg_missing_field, msg_unbound, msg_undefined_assertion, msg_private_in, msg_screaming, msg_struct_only_tag, msg_unknown_tag};
use crate::validator::{
    ImportState, assert_errors, assert_ref_errors, asserts_errors, builtin_tag, copied_keys, struct_keys, cases_errors, first_assertion, copies_fold, copy_errors, copy_selection, copy_source_step, def_errors, duplicate_fields, exported_names, field_names,
    first_enum, first_named, import_step, imports_state, is_private, type_errors, is_screaming_case, lookup, missing_excluded_errors, private_names, stmt_errors, stmts_errors, tag_error, texts,
};
use crate::view::{
    AssertRefV, AssertionDefV, AssertionStmtV, ConstDefV, DefinitionV, EnumCaseV, EnumDefV, VariantDefV, FileV, ImportKindV, ImportV, ProtocolDefV, StructDefV, StructFieldV,
    StructSourceV,
};

verus! {

proof fn lemma_lex_from_ends_with_eof(chars: Seq<char>, s: LexPos, acc: Seq<Spanned>)
    requires
        0 <= s.0,
        forall|i: int| 0 <= i < acc.len() ==> !(#[trigger] acc[i].0 is Eof),
    ensures
        lex_from(chars, s, acc) matches Ok(ts) ==> {
            &&& ts.len() > 0
            &&& ts.last().0 is Eof
            &&& forall|i: int| 0 <= i < ts.len() - 1 ==> !(#[trigger] ts[i].0 is Eof)
        },
    decreases chars.len() - s.0,
{
    let s1 = skip_trivia(chars, s, false);
    lemma_skip_trivia_bounds(chars, s, false);
    if s1.0 >= chars.len() {
        let ts = acc.push((Token::Eof, s1.1 as usize, s1.2 as usize));
        assert forall|i: int| 0 <= i < ts.len() - 1 implies !(#[trigger] ts[i].0 is Eof) by {
            assert(ts[i] == acc[i]);
        };
    } else {
        lemma_token_advances(chars, s1);
        match token_at(chars, s1) {
            Err(_) => {},
            Ok((t, s2)) => {
                let acc2 = acc.push((t, s1.1 as usize, s1.2 as usize));
                assert forall|i: int| 0 <= i < acc2.len() implies !(#[trigger] acc2[i].0 is Eof) by {
                    if i < acc.len() {
                        assert(acc2[i] == acc[i]);
                    }
                };
                lemma_lex_from_ends_with_eof(chars, s2, acc2);
            },
        }
    }
}

/// Lexing, when it succeeds, gives a token sequence that ends with `Eof` and has
/// no other `Eof`.
pub proof fn law_tokens_end_with_eof(chars: Seq<char>)
    ensures
        lex(chars) matches Ok(ts) ==> {
            &&& ts.len() > 0
            &&& ts.last().0 is Eof
            &&& forall|i: int| 0 <= i < ts.len() - 1 ==> !(#[trigger] ts[i].0 is Eof)
        },
{
    lemma_lex_from_ends_with_eof(chars, (0, 1, 0), Seq::empty());
}

/// A tag written without `= value` has the value `true`: `#name` followed by
/// neither `:` nor `=` reads as the tag `name` with no namespace and value `true`.
pub proof fn law_tag_defaults_to_true(t: Seq<Spanned>, st: PState)
    requires
        tok(t, st) is Hash,
        tok(t, next(t, st)) is Ident,
        !(tok(t, next(t, next(t, st))) is Colon),
        !(tok(t, next(t, next(t, st))) is Equals),
    ensures
        p_tag(t, st) == Ok::<(Tag, PState), ParseError>((
            (Tag { namespace: None, name: tok(t, next(t, st))->Ident_0, value: TagValue::Bool(true) }),
            next(t, next(t, st)),
        )),
{
}

/// The same for a namespaced tag: `#ns:name` not followed by `=` reads as the
/// tag `name` in namespace `ns` with value `true`.
pub proof fn law_namespaced_tag_defaults_to_true(t: Seq<Spanned>, st: PState)
    requires
        tok(t, st) is Hash,
        tok(t, next(t, st)) is Ident,
        tok(t, next(t, next(t, st))) is Colon,
        tok(t, next(t, next(t, next(t, st)))) is Ident,
        !(tok(t, next(t, next(t, next(t, next(t, st))))) is Equals),
    ensures
        p_tag(t, st) == Ok::<(Tag, PState), ParseError>((
            (Tag {
                namespace: Some(tok(t, next(t, st))->Ident_0),
                name: tok(t, next(t, next(t, next(t, st))))->Ident_0,
                value: TagValue::Bool(true),
            }),
            next(t, next(t, next(t, next(t, st)))),
        )),
{
}

/// Tags with a namespace are never errors; a tag without one must be built in,
/// and `#required` and `#optional` only stand on struct fields.
pub proof fn law_tag_rules(t: Tag, on_field: bool)
    ensures
        t.namespace is Some ==> tag_error(t, on_field) == Seq::<Seq<char>>::empty(),
        t.namespace is None && !builtin_tag(t.name@) ==> tag_error(t, on_field) == seq![msg_unknown_tag(t.name@)],
        t.namespace is None && !on_field && (t.name@ == "required"@ || t.name@ == "optional"@) ==> tag_error(t, on_field)
            == seq![msg_struct_only_tag(t.name@)],
        t.namespace is None && builtin_tag(t.name@) && on_field ==> tag_error(t, on_field) == Seq::<Seq<char>>::empty(),
{
}

/// A constant is reported exactly when its name is not SCREAMING_CASE.
pub proof fn law_constant_names(c: ConstDefV, all: Seq<DefinitionV>, names: Seq<Seq<char>>, ns: Seq<Seq<char>>, adefs: Seq<AssertionDefV>)
    ensures
        def_errors(DefinitionV::Const(c), all, names, ns, adefs) == if is_screaming_case(c.name@) {
            Seq::<Seq<char>>::empty()
        } else {
            seq![msg_screaming(c.name@)]
        },
{
}

/// The fields of `fs`, in order, whose names are not among `exclude`.
pub open spec fn unlisted(fs: Seq<StructFieldV>, exclude: Seq<String>) -> Seq<StructFieldV> {
    fs.filter(|f: StructFieldV| !texts(exclude).contains(f.name@))
}

/// `@exclude(Base, [names])` brings in the fields of `Base`, in order, without
/// those whose names are listed.
pub proof fn law_exclude_removes_listed_fields(base: String, exclude: Seq<String>, defs: Seq<DefinitionV>)
    requires
        copy_resolves((StructSourceV::Exclude { base, exclude }), defs),
    ensures
        copy_resolves((StructSourceV::Named { name: base }), defs),
        resolved((StructSourceV::Exclude { base, exclude }), defs) == match resolved((StructSourceV::Named { name: base }), defs) {
            Ok(fs) => Ok::<Seq<StructFieldV>, String>(without_names(fs, exclude)),
            Err(e) => Err(e),
        },
        resolved((StructSourceV::Named { name: base }), defs) matches Ok(fs) ==> {
            &&& resolved((StructSourceV::Exclude { base, exclude }), defs) == Ok::<Seq<StructFieldV>, String>(unlisted(fs, exclude))
            &&& forall|i: int| 0 <= i < unlisted(fs, exclude).len() ==> !texts(exclude).contains(#[trigger] unlisted(fs, exclude)[i].name@)
        },
{
    assert forall|n: Seq<char>| crate::compiler::names_contain(exclude, n) == texts(exclude).contains(n) by {
        if crate::compiler::names_contain(exclude, n) {
            let k = choose|k: int| 0 <= k < exclude.len() && #[trigger] exclude[k]@ == n;
            assert(texts(exclude)[k] == n);
        }
        if texts(exclude).contains(n) {
            let k = choose|k: int| 0 <= k < texts(exclude).len() && texts(exclude)[k] == n;
            assert(exclude[k]@ == n);
        }
    };
    assert((|f: StructFieldV| !crate::compiler::names_contain(exclude, f.name@)) =~= (|f: StructFieldV| !texts(exclude).contains(f.name@)));
    if let Ok(fs) = resolved((StructSourceV::Named { name: base }), defs) {
        assert forall|i: int| 0 <= i < unlisted(fs, exclude).len() implies !texts(exclude).contains(#[trigger] unlisted(fs, exclude)[i].name@) by {
            fs.lemma_filter_pred(|f: StructFieldV| !texts(exclude).contains(f.name@), i);
        };
    }
}

/// The errors of `$s haskey $k` for each case of an enum: one missing field for
/// each case (in order) that is not among `keys`, reported at `at`.
pub open spec fn missing_case_errors(cases: Seq<EnumCaseV>, keys: Seq<Seq<char>>, at: usize, st: Seq<char>) -> Seq<Seq<char>>
    decreases cases.len(),
{
    if cases.len() == 0 {
        Seq::empty()
    } else {
        missing_case_errors(cases.drop_last(), keys, at, st) + if keys.contains(cases.last().name@) {
            Seq::empty()
        } else {
            seq![msg_missing_field(at, st, cases.last().name@)]
        }
    }
}

/// The line an error is reported at: the call site's, when given.
pub open spec fn report_line(call_site: Option<usize>, own: usize) -> usize {
    match call_site {
        Some(l) => l,
        None => own,
    }
}

proof fn lemma_cases_haskey(var: String, subject: String, body_line: usize, cases: Seq<EnumCaseV>, scope: Seq<(String, String)>, ov: Option<usize>, st: Seq<char>, keys: Seq<Seq<char>>, all: Seq<DefinitionV>)
    ensures
        cases_errors(seq![(AssertionStmtV::HasKey { subject, key: var, line: body_line })], var, cases, scope, ov, st, keys, all)
            == missing_case_errors(cases, keys, report_line(ov, body_line), st),
    decreases cases.len(),
{
    let body = seq![AssertionStmtV::HasKey { subject, key: var, line: body_line }];
    if cases.len() > 0 {
        lemma_cases_haskey(var, subject, body_line, cases.drop_last(), scope, ov, st, keys, all);
        let sc = scope.push((var, cases.last().name));
        assert(lookup(sc, var@) == Some(cases.last().name));
        assert(body.subrange(0, 0) =~= Seq::<AssertionStmtV>::empty());
        assert(stmts_errors(Seq::<AssertionStmtV>::empty(), sc, ov, st, keys, all) == Seq::<Seq<char>>::empty());
        assert(stmts_errors(body, sc, ov, st, keys, all) =~= stmt_errors(body[0], sc, ov, st, keys, all));
    }
}

/// `for $k in E { $s haskey $k }` checks that the struct has a field for every
/// case of `E`: it reports, in the order of the cases, each case that is not
/// among the struct's field names `keys` (matched exactly), at the line of the
/// check or at the call site `ov` of a named assertion; and it reports `E` when
/// no enum among the definitions has that name.
pub proof fn law_haskey_covers_enum(
    var: String,
    subject: String,
    source: String,
    loop_line: usize,
    body_line: usize,
    scope: Seq<(String, String)>,
    ov: Option<usize>,
    st: Seq<char>,
    keys: Seq<Seq<char>>,
    all: Seq<DefinitionV>,
)
    ensures
        stmts_errors(
            seq![(AssertionStmtV::ForIn {
                var,
                source,
                body: seq![(AssertionStmtV::HasKey { subject, key: var, line: body_line })],
                line: loop_line,
            })],
            scope, ov, st, keys, all,
        ) == match first_enum(all, source@) {
            None => seq![msg_enum_not_found(report_line(ov, loop_line), source@, st)],
            Some(e) => missing_case_errors(e.cases, keys, report_line(ov, body_line), st),
        },
{
    let s = seq![AssertionStmtV::ForIn {
        var,
        source,
        body: seq![AssertionStmtV::HasKey { subject, key: var, line: body_line }],
        line: loop_line,
    }];
    assert(s.subrange(0, 0) =~= Seq::<AssertionStmtV>::empty());
    assert(stmts_errors(Seq::<AssertionStmtV>::empty(), scope, ov, st, keys, all) == Seq::<Seq<char>>::empty());
    assert(stmts_errors(s, scope, ov, st, keys, all) =~= stmt_errors(s[0], scope, ov, st, keys, all));
    if let Some(e) = first_enum(all, source@) {
        lemma_cases_haskey(var, subject, body_line, e.cases, scope, ov, st, keys, all);
    }
}

/// A type that the imported file defines only as private cannot be imported: a
/// linked import that names it reports that it is private and makes no name
/// known.
pub proof fn law_private_type_not_linked(st: ImportState, path: String, n: String, f: FileV)
    requires
        private_names(f).contains(n@),
        !exported_names(f).contains(n@),
    ensures
        import_step(st, (ImportV { path, kind: ImportKindV::Named { copy: false, types: seq![n] } }), Ok(f)).names == st.names,
        import_step(st, (ImportV { path, kind: ImportKindV::Named { copy: false, types: seq![n] } }), Ok(f)).errors
            == st.errors.push(msg_private_in(n@, path@)),
{
    let tv = texts(seq![n]);
    assert(tv =~= seq![n@]);
    reveal_with_fuel(Seq::<Seq<char>>::filter, 2);
    assert(tv.drop_last() =~= Seq::<Seq<char>>::empty());
    assert(tv.filter(|x: Seq<char>| exported_names(f).contains(x)) =~= Seq::<Seq<char>>::empty());
    assert(seq![n].drop_last() =~= Seq::<String>::empty());
    assert(crate::validator::linked_errors(Seq::<String>::empty(), f, path@) == Seq::<Seq<char>>::empty());
    assert(crate::validator::linked_errors(seq![n], f, path@) =~= seq![msg_private_in(n@, path@)]);
}

/// A `^copy` import brings in only definitions that the imported file exports
/// and that the import names.
pub proof fn law_copy_import_takes_exported(f: FileV, types: Seq<String>, i: int)
    requires
        0 <= i < copy_selection(f, types).len(),
    ensures
        exported_names(f).contains(crate::compiler::name_of(copy_selection(f, types)[i])@),
        texts(types).contains(crate::compiler::name_of(copy_selection(f, types)[i])@),
{
    f.definitions.lemma_filter_pred(
        |d: DefinitionV| texts(types).contains(crate::compiler::name_of(d)@) && exported_names(f).contains(crate::compiler::name_of(d)@),
        i,
    );
}

/// Recording fields against the names seen so far reports a field exactly when
/// its name was seen before; when it reports nothing, the fields' names are new,
/// differ from each other, and are added to the seen names in order.
pub proof fn law_duplicate_fields_reported(fields: Seq<StructFieldV>, seen: Seq<Seq<char>>, st: Seq<char>, base: Option<Seq<char>>)
    requires
        duplicate_fields(fields, seen, st, base).1.len() == 0,
    ensures
        duplicate_fields(fields, seen, st, base).0 == seen + field_names(fields),
        forall|i: int| 0 <= i < fields.len() ==> !seen.contains(#[trigger] fields[i].name@),
        forall|i: int, j: int| 0 <= i < j < fields.len() ==> fields[i].name@ != fields[j].name@,
    decreases fields.len(),
{
    if fields.len() > 0 {
        let (s, e) = duplicate_fields(fields.drop_last(), seen, st, base);
        let n = fields.last().name@;
        assert(!s.contains(n));
        law_duplicate_fields_reported(fields.drop_last(), seen, st, base);
        assert(field_names(fields) =~= field_names(fields.drop_last()).push(n));
        assert forall|i: int| 0 <= i < fields.len() implies !seen.contains(#[trigger] fields[i].name@) by {
            if i < fields.len() - 1 {
                assert(fields[i] == fields.drop_last()[i]);
            } else if seen.contains(n) {
                let k = choose|k: int| 0 <= k < seen.len() && seen[k] == n;
                assert(s[k] == n);
            }
        };
        assert forall|i: int, j: int| 0 <= i < j < fields.len() implies fields[i].name@ != fields[j].name@ by {
            if j < fields.len() - 1 {
                assert(fields[i] == fields.drop_last()[i]);
                assert(fields[j] == fields.drop_last()[j]);
            } else {
                assert(fields[i] == fields.drop_last()[i]);
                assert(s[seen.len() + i] == field_names(fields.drop_last())[i]);
            }
        };
    }
}

/// Protocols give no TypeScript: putting one among definitions leaves the text
/// emitted for them unchanged.
pub proof fn law_protocols_emit_no_typescript(before: Seq<DefinitionV>, p: ProtocolDefV, after: Seq<DefinitionV>, mode: OptionalMode, all: Seq<DefinitionV>)
    ensures
        defs_ts(before + seq![DefinitionV::Protocol(p)] + after, mode, all) == defs_ts(before + after, mode, all),
{
    lemma_defs_ts_append(before + seq![DefinitionV::Protocol(p)], after, mode, all);
    lemma_defs_ts_append(before, seq![DefinitionV::Protocol(p)], mode, all);
    lemma_defs_ts_append(before, after, mode, all);
    assert(seq![DefinitionV::Protocol(p)].drop_last() =~= Seq::<DefinitionV>::empty());
    assert(defs_ts(Seq::<DefinitionV>::empty(), mode, all) == Seq::<char>::empty());
    assert(defs_ts(seq![DefinitionV::Protocol(p)], mode, all) =~= Seq::<char>::empty());
    assert(defs_ts(before, mode, all) + Seq::<char>::empty() =~= defs_ts(before, mode, all));
}

/// A field without tags is optional: `name?: T | null` in the implicit mode, and
/// `name: T | null` in the explicit one.
pub proof fn law_untagged_fields_are_optional(name: String, ty: TypeRef, line: usize)
    ensures
        field_ts((StructFieldV { name, ty, tags: Seq::empty(), line }), OptionalMode::Implicit)
            == "  "@ + field_key(name@) + "?: "@ + type_ts(ty) + " | null;\n"@,
        field_ts((StructFieldV { name, ty, tags: Seq::empty(), line }), OptionalMode::Explicit)
            == "  "@ + field_key(name@) + ": "@ + type_ts(ty) + " | null;\n"@,
{
    let f = StructFieldV { name, ty, tags: Seq::empty(), line };
    assert(!crate::compiler::tags_have(f.tags, "banned"@));
    assert(!crate::compiler::tags_have(f.tags, "required"@));
    assert(!crate::compiler::tags_have(f.tags, "deprecated"@));
    assert(crate::compiler::typescript::jsdoc_line(f.tags) =~= Seq::<char>::empty());
    assert(field_ts(f, OptionalMode::Implicit) =~= "  "@ + field_key(name@) + "?: "@ + type_ts(ty) + " | null;\n"@);
    assert(field_ts(f, OptionalMode::Explicit) =~= "  "@ + field_key(name@) + ": "@ + type_ts(ty) + " | null;\n"@);
}

/// An import path loses its `.wst` extension in the generated import lines.
pub proof fn law_wst_extension_stripped(path: Seq<char>)
    ensures
        without_wst_ext(path + ".wst"@) == path,
{
    reveal_strlit(".wst");
    let p = path + ".wst"@;
    assert(p.subrange(p.len() - 4, p.len() as int) =~= ".wst"@);
    assert(p.subrange(0, p.len() - 4) =~= path);
}

/// More fuel does not change a resolution that the fuel sufficed for.
pub proof fn lemma_fuel_enough(source: StructSourceV, defs: Seq<DefinitionV>, f1: nat, f2: nat)
    requires
        f1 <= f2,
        resolve_fields(source, defs, f1) is Some,
    ensures
        resolve_fields(source, defs, f2) == resolve_fields(source, defs, f1),
    decreases f1, 0nat,
{
    match find_struct(defs, source_base(source)@) {
        None => {},
        Some(sd) => {
            lemma_fuel_enough_all(sd.copies, defs, (f1 - 1) as nat, (f2 - 1) as nat);
        },
    }
}

/// More fuel does not change the resolution of a list of copies that the fuel
/// sufficed for.
pub proof fn lemma_fuel_enough_all(copies: Seq<StructSourceV>, defs: Seq<DefinitionV>, f1: nat, f2: nat)
    requires
        f1 <= f2,
        resolve_all(copies, defs, f1) is Some,
    ensures
        resolve_all(copies, defs, f2) == resolve_all(copies, defs, f1),
    decreases f1, copies.len() + 1,
{
    if copies.len() > 0 {
        lemma_fuel_enough_all(copies.drop_last(), defs, f1, f2);
        if resolve_all(copies.drop_last(), defs, f1) matches Some(Ok(_)) {
            lemma_fuel_enough(copies.last(), defs, f1, f2);
        }
    }
}

/// The fields that resolving `copies` one after the other gives, or the first
/// struct that one of them misses.
pub open spec fn resolved_in_order(copies: Seq<StructSourceV>, defs: Seq<DefinitionV>) -> Result<Seq<StructFieldV>, String>
    decreases copies.len(),
{
    if copies.len() == 0 {
        Ok(Seq::empty())
    } else {
        match resolved_in_order(copies.drop_last(), defs) {
            Err(e) => Err(e),
            Ok(p) => match resolved(copies.last(), defs) {
                Ok(m) => Ok(p + m),
                Err(e) => Err(e),
            },
        }
    }
}

proof fn lemma_all_in_order(copies: Seq<StructSourceV>, defs: Seq<DefinitionV>, fuel: nat)
    requires
        fuel <= defs.len(),
        resolve_all(copies, defs, fuel) is Some,
    ensures
        resolve_all(copies, defs, fuel) == Some(resolved_in_order(copies, defs)),
        resolved_in_order(copies, defs) is Ok ==> forall|i: int| 0 <= i < copies.len() ==> #[trigger] copy_resolves(copies[i], defs),
    decreases copies.len(),
{
    if copies.len() > 0 {
        lemma_all_in_order(copies.drop_last(), defs, fuel);
        if resolve_all(copies.drop_last(), defs, fuel) matches Some(Ok(_)) {
            lemma_fuel_enough(copies.last(), defs, fuel, defs.len());
        }
        if resolved_in_order(copies, defs) is Ok {
            assert forall|i: int| 0 <= i < copies.len() implies #[trigger] copy_resolves(copies[i], defs) by {
                if i < copies.len() - 1 {
                    assert(copies[i] == copies.drop_last()[i]);
                }
            };
        }
    }
}

/// Copying a struct brings in the fields that its own copies bring in, in order,
/// followed by its own fields; copying a name that no struct has fails with that
/// name.
pub proof fn law_copy_brings_copied_then_own_fields(name: String, defs: Seq<DefinitionV>)
    requires
        copy_resolves((StructSourceV::Named { name }), defs),
    ensures
        match find_struct(defs, name@) {
            None => resolved((StructSourceV::Named { name }), defs) == Err::<Seq<StructFieldV>, String>(name),
            Some(sd) => {
                &&& resolved((StructSourceV::Named { name }), defs) == match resolved_in_order(sd.copies, defs) {
                    Ok(p) => Ok::<Seq<StructFieldV>, String>(p + sd.fields),
                    Err(e) => Err(e),
                }
                &&& resolved_in_order(sd.copies, defs) is Ok ==> forall|i: int| 0 <= i < sd.copies.len() ==> #[trigger] copy_resolves(sd.copies[i], defs)
            },
        },
{
    if let Some(sd) = find_struct(defs, name@) {
        lemma_all_in_order(sd.copies, defs, (defs.len() - 1) as nat);
    }
}

/// The field names that the first `k` copies of `s` bring in during validation:
/// for each copy whose base is a known name, is first defined as a struct and
/// resolves, the names of the fields it resolves to.
pub open spec fn copied_names(s: StructDefV, k: nat, all: Seq<DefinitionV>, names: Seq<Seq<char>>) -> Seq<Seq<char>>
    decreases k,
{
    if k == 0 {
        Seq::empty()
    } else {
        let c = s.copies[k - 1];
        let base = source_base(c)@;
        copied_names(s, (k - 1) as nat, all, names) + if names.contains(base) && (first_named(all, base) matches Some(d) && d is Struct)
            && resolved(c, all) is Ok {
            field_names(resolved(c, all)->Ok_0)
        } else {
            Seq::empty()
        }
    }
}

/// The names in `x` differ from each other and from those in `own`.
pub open spec fn fresh_names(own: Seq<Seq<char>>, x: Seq<Seq<char>>) -> bool {
    &&& forall|i: int| 0 <= i < x.len() ==> !own.contains(#[trigger] x[i])
    &&& forall|i: int, j: int| 0 <= i < j < x.len() ==> x[i] != x[j]
}

proof fn lemma_copies_fold_fresh(s: StructDefV, k: nat, all: Seq<DefinitionV>, names: Seq<Seq<char>>)
    requires
        k <= s.copies.len(),
        copies_fold(s, k, all, names).1.len() == 0,
    ensures
        copies_fold(s, k, all, names).0 == field_names(s.fields) + copied_names(s, k, all, names),
        fresh_names(Seq::empty(), field_names(s.fields)),
        fresh_names(field_names(s.fields), copied_names(s, k, all, names)),
    decreases k,
{
    let own = field_names(s.fields);
    if k == 0 {
        law_duplicate_fields_reported(s.fields, Seq::empty(), s.name@, None);
        assert(Seq::<Seq<char>>::empty() + own =~= own);
        assert(own + Seq::<Seq<char>>::empty() =~= own);
        assert forall|i: int, j: int| 0 <= i < j < own.len() implies own[i] != own[j] by {
            assert(own[i] == s.fields[i].name@);
            assert(own[j] == s.fields[j].name@);
        };
    } else {
        let (seen, e) = copies_fold(s, (k - 1) as nat, all, names);
        let c = s.copies[k - 1];
        let (seen2, e2) = copy_source_step(s.name@, c, all, names, seen);
        assert(e.len() == 0 && e2.len() == 0);
        lemma_copies_fold_fresh(s, (k - 1) as nat, all, names);
        let prev = copied_names(s, (k - 1) as nat, all, names);
        let base = source_base(c)@;
        if names.contains(base) && (first_named(all, base) matches Some(d) && d is Struct) && resolved(c, all) is Ok {
            let fields = resolved(c, all)->Ok_0;
            let excl = match c {
                StructSourceV::Exclude { exclude, .. } => match resolved(StructSourceV::Named { name: source_base(c) }, all) {
                    Ok(fs) => missing_excluded_errors(exclude, fs, base),
                    Err(_) => Seq::empty(),
                },
                StructSourceV::Named { .. } => Seq::empty(),
            };
            let (s2, dups) = duplicate_fields(fields, seen, s.name@, Some(base));
            assert(e2 == excl + dups);
            assert(dups.len() == 0);
            law_duplicate_fields_reported(fields, seen, s.name@, Some(base));
            let x = prev + field_names(fields);
            assert(copied_names(s, k, all, names) == x);
            assert(seen2 =~= own + x);
            assert forall|i: int| 0 <= i < x.len() implies !own.contains(#[trigger] x[i]) by {
                if i >= prev.len() {
                    let j = i - prev.len();
                    assert(x[i] == fields[j].name@);
                    if own.contains(x[i]) {
                        let w = choose|w: int| 0 <= w < own.len() && own[w] == x[i];
                        assert(seen[w] == own[w]);
                    }
                }
            };
            assert forall|i: int, j: int| 0 <= i < j < x.len() implies x[i] != x[j] by {
                if j >= prev.len() {
                    let jj = j - prev.len();
                    assert(x[j] == fields[jj].name@);
                    if i >= prev.len() {
                        assert(x[i] == fields[i - prev.len()].name@);
                    } else {
                        assert(seen[own.len() + i] == prev[i]);
                        assert(seen.contains(x[i]));
                    }
                }
            };
        } else {
            assert(copied_names(s, k, all, names) =~= prev);
            assert(seen2 == seen);
        }
    }
}

/// A field name appears at most once across a struct's copies and its own
/// fields: when validation reports no error for the fields of `s`, the names of
/// its own fields followed by those its copies bring in all differ.
pub proof fn law_field_names_distinct(s: StructDefV, all: Seq<DefinitionV>, names: Seq<Seq<char>>)
    requires
        copy_errors(s, all, names).len() == 0,
    ensures
        fresh_names(Seq::empty(), field_names(s.fields) + copied_names(s, s.copies.len(), all, names)),
{
    lemma_copies_fold_fresh(s, s.copies.len(), all, names);
    let own = field_names(s.fields);
    let x = copied_names(s, s.copies.len(), all, names);
    let a = own + x;
    assert forall|i: int, j: int| 0 <= i < j < a.len() implies a[i] != a[j] by {
        if j < own.len() {
            assert(a[i] == own[i] && a[j] == own[j]);
        } else if i < own.len() {
            assert(a[i] == own[i] && a[j] == x[j - own.len()]);
            assert(!own.contains(x[j - own.len()]));
        } else {
            assert(a[i] == x[i - own.len()] && a[j] == x[j - own.len()]);
        }
    };
}

/// The message `m` starts with `p`.
pub open spec fn starts_with(m: Seq<char>, p: Seq<char>) -> bool {
    m.len() >= p.len() && m.subrange(0, p.len() as int) == p
}

/// Every message of `ms` is reported at line `l`.
pub open spec fn all_at_line(ms: Seq<Seq<char>>, l: usize) -> bool {
    forall|i: int| 0 <= i < ms.len() ==> starts_with(#[trigger] ms[i], decimal(l as nat) + ":0: "@)
}

proof fn lemma_at_line_concat(a: Seq<Seq<char>>, b: Seq<Seq<char>>, l: usize)
    requires
        all_at_line(a, l),
        all_at_line(b, l),
    ensures
        all_at_line(a + b, l),
{
    assert forall|i: int| 0 <= i < (a + b).len() implies starts_with(#[trigger] (a + b)[i], decimal(l as nat) + ":0: "@) by {
        if i < a.len() {
            assert((a + b)[i] == a[i]);
        } else {
            assert((a + b)[i] == b[i - a.len()]);
        }
    };
}

proof fn lemma_prefixed(p: Seq<char>, lit: Seq<char>, rest: Seq<char>)
    requires
        lit.len() >= 4,
        lit.subrange(0, 4) == ":0: "@,
    ensures
        starts_with(p + lit + rest, p + ":0: "@),
{
    reveal_strlit(":0: ");
    let m = p + lit + rest;
    assert(m.subrange(0, p.len() + 4int) =~= p + ":0: "@);
}

proof fn lemma_stmts_at_call_site(stmts: Seq<AssertionStmtV>, scope: Seq<(String, String)>, l: usize, st: Seq<char>, keys: Seq<Seq<char>>, all: Seq<DefinitionV>)
    ensures
        all_at_line(stmts_errors(stmts, scope, Some(l), st, keys, all), l),
    decreases stmts, 0nat, 0nat,
{
    if stmts.len() > 0 {
        lemma_stmts_at_call_site(stmts.subrange(0, stmts.len() - 1), scope, l, st, keys, all);
        lemma_stmt_at_call_site(stmts[stmts.len() - 1], scope, l, st, keys, all);
        lemma_at_line_concat(
            stmts_errors(stmts.subrange(0, stmts.len() - 1), scope, Some(l), st, keys, all),
            stmt_errors(stmts[stmts.len() - 1], scope, Some(l), st, keys, all),
            l,
        );
    }
}

proof fn lemma_stmt_at_call_site(stmt: AssertionStmtV, scope: Seq<(String, String)>, l: usize, st: Seq<char>, keys: Seq<Seq<char>>, all: Seq<DefinitionV>)
    ensures
        all_at_line(stmt_errors(stmt, scope, Some(l), st, keys, all), l),
    decreases stmt, 2nat, 0nat,
{
    reveal_strlit(":0: ");
    reveal_strlit(":0: Enum '");
    reveal_strlit(":0: In assertion on '");
    reveal_strlit(":0: Assertion failed: struct '");
    let p = decimal(l as nat);
    match stmt {
        AssertionStmtV::ForIn { var, source, body, .. } => {
            match first_enum(all, source@) {
                None => {
                    assert(":0: Enum '"@.subrange(0, 4) =~= ":0: "@);
                    lemma_prefixed(p, ":0: Enum '"@, source@ + "' not found for assertion on '"@ + st
                        + "'; only locally-defined and ^copy-imported enums can be used"@);
                    assert(msg_enum_not_found(l, source@, st) =~= p + ":0: Enum '"@ + (source@ + "' not found for assertion on '"@ + st
                        + "'; only locally-defined and ^copy-imported enums can be used"@));
                },
                Some(e) => {
                    lemma_cases_at_call_site(body, var, e.cases, scope, l, st, keys, all);
                },
            }
        },
        AssertionStmtV::HasKey { key, .. } => {
            match lookup(scope, key@) {
                None => {
                    assert(":0: In assertion on '"@.subrange(0, 4) =~= ":0: "@);
                    lemma_prefixed(p, ":0: In assertion on '"@, st + "': '$"@ + key@ + "'  is not bound (not a loop variable)"@);
                    assert(msg_unbound(l, st, key@) =~= p + ":0: In assertion on '"@ + (st + "': '$"@ + key@ + "'  is not bound (not a loop variable)"@));
                },
                Some(v) => {
                    assert(":0: Assertion failed: struct '"@.subrange(0, 4) =~= ":0: "@);
                    lemma_prefixed(p, ":0: Assertion failed: struct '"@, st + "' is missing field '"@ + v@ + "'"@);
                    assert(msg_missing_field(l, st, v@) =~= p + ":0: Assertion failed: struct '"@ + (st + "' is missing field '"@ + v@ + "'"@));
                },
            }
        },
    }
}

proof fn lemma_cases_at_call_site(body: Seq<AssertionStmtV>, var: String, cases: Seq<EnumCaseV>, scope: Seq<(String, String)>, l: usize, st: Seq<char>, keys: Seq<Seq<char>>, all: Seq<DefinitionV>)
    ensures
        all_at_line(cases_errors(body, var, cases, scope, Some(l), st, keys, all), l),
    decreases body, 1nat, cases.len(),
{
    if cases.len() > 0 {
        lemma_cases_at_call_site(body, var, cases.drop_last(), scope, l, st, keys, all);
        lemma_stmts_at_call_site(body, scope.push((var, cases.last().name)), l, st, keys, all);
        lemma_at_line_concat(
            cases_errors(body, var, cases.drop_last(), scope, Some(l), st, keys, all),
            stmts_errors(body, scope.push((var, cases.last().name)), Some(l), st, keys, all),
            l,
        );
    }
}

/// Failures of a named assertion are reported at the line where the struct
/// refers to it (`assert Name`), not at lines inside the assertion's body.
pub proof fn law_named_assertion_reported_at_call_site(name: String, line: usize, st: Seq<char>, keys: Seq<Seq<char>>, all: Seq<DefinitionV>, adefs: Seq<AssertionDefV>)
    ensures
        all_at_line(assert_ref_errors((AssertRefV::Named { name, line }), st, keys, all, adefs), line),
{
    match first_assertion(adefs, name@) {
        None => {
            reveal_strlit(":0: ");
            reveal_strlit(":0: Undefined assertion '");
            assert(":0: Undefined assertion '"@.subrange(0, 4) =~= ":0: "@);
            lemma_prefixed(decimal(line as nat), ":0: Undefined assertion '"@, name@ + "'"@);
            assert(msg_undefined_assertion(line, name@) =~= decimal(line as nat) + ":0: Undefined assertion '"@ + (name@ + "'"@));
        },
        Some(ad) => {
            lemma_stmts_at_call_site(ad.body, Seq::empty(), line, st, keys, all);
        },
    }
}

/// A definition without its `private` mark.
pub open spec fn made_public(d: DefinitionV) -> DefinitionV {
    match d {
        DefinitionV::Enum(e) => DefinitionV::Enum(EnumDefV { private: false, ..e }),
        DefinitionV::Variant(v) => DefinitionV::Variant(VariantDefV { private: false, ..v }),
        DefinitionV::Struct(s) => DefinitionV::Struct(StructDefV { private: false, ..s }),
        DefinitionV::Protocol(p) => DefinitionV::Protocol(ProtocolDefV { private: false, ..p }),
        DefinitionV::Const(c) => DefinitionV::Const(c),
    }
}

/// The definitions without their `private` marks.
pub open spec fn all_public(defs: Seq<DefinitionV>) -> Seq<DefinitionV> {
    defs.map_values(|d: DefinitionV| made_public(d))
}

proof fn lemma_find_struct_public(defs: Seq<DefinitionV>, name: Seq<char>)
    ensures
        find_struct(all_public(defs), name) == match find_struct(defs, name) {
            Some(sd) => Some((StructDefV { private: false, ..sd })),
            None => None,
        },
    decreases defs.len(),
{
    if defs.len() > 0 {
        assert(all_public(defs).drop_first() =~= all_public(defs.drop_first()));
        lemma_find_struct_public(defs.drop_first(), name);
    }
}

proof fn lemma_first_enum_public(defs: Seq<DefinitionV>, name: Seq<char>)
    ensures
        first_enum(all_public(defs), name) == match first_enum(defs, name) {
            Some(e) => Some((EnumDefV { private: false, ..e })),
            None => None,
        },
    decreases defs.len(),
{
    if defs.len() > 0 {
        assert(all_public(defs).drop_first() =~= all_public(defs.drop_first()));
        lemma_first_enum_public(defs.drop_first(), name);
    }
}

proof fn lemma_resolve_public(source: StructSourceV, defs: Seq<DefinitionV>, fuel: nat)
    ensures
        resolve_fields(source, all_public(defs), fuel) == resolve_fields(source, defs, fuel),
    decreases fuel, 0nat,
{
    lemma_find_struct_public(defs, source_base(source)@);
    if let Some(sd) = find_struct(defs, source_base(source)@) {
        if fuel > 0 {
            lemma_resolve_all_public(sd.copies, defs, (fuel - 1) as nat);
        }
    }
}

proof fn lemma_resolve_all_public(copies: Seq<StructSourceV>, defs: Seq<DefinitionV>, fuel: nat)
    ensures
        resolve_all(copies, all_public(defs), fuel) == resolve_all(copies, defs, fuel),
    decreases fuel, copies.len() + 1,
{
    if copies.len() > 0 {
        lemma_resolve_all_public(copies.drop_last(), defs, fuel);
        lemma_resolve_public(copies.last(), defs, fuel);
    }
}

proof fn lemma_copied_keys_public(copies: Seq<StructSourceV>, defs: Seq<DefinitionV>)
    ensures
        copied_keys(copies, all_public(defs)) == copied_keys(copies, defs),
    decreases copies.len(),
{
    if copies.len() > 0 {
        lemma_copied_keys_public(copies.drop_last(), defs);
        lemma_resolve_public(copies.last(), defs, defs.len());
    }
}

proof fn lemma_stmts_public(stmts: Seq<AssertionStmtV>, scope: Seq<(String, String)>, ov: Option<usize>, st: Seq<char>, keys: Seq<Seq<char>>, all: Seq<DefinitionV>)
    ensures
        stmts_errors(stmts, scope, ov, st, keys, all_public(all)) == stmts_errors(stmts, scope, ov, st, keys, all),
    decreases stmts, 0nat, 0nat,
{
    if stmts.len() > 0 {
        lemma_stmts_public(stmts.subrange(0, stmts.len() - 1), scope, ov, st, keys, all);
        lemma_stmt_public(stmts[stmts.len() - 1], scope, ov, st, keys, all);
    }
}

proof fn lemma_stmt_public(stmt: AssertionStmtV, scope: Seq<(String, String)>, ov: Option<usize>, st: Seq<char>, keys: Seq<Seq<char>>, all: Seq<DefinitionV>)
    ensures
        stmt_errors(stmt, scope, ov, st, keys, all_public(all)) == stmt_errors(stmt, scope, ov, st, keys, all),
    decreases stmt, 2nat, 0nat,
{
    if let AssertionStmtV::ForIn { var, source, body, .. } = stmt {
        lemma_first_enum_public(all, source@);
        if let Some(e) = first_enum(all, source@) {
            lemma_cases_public(body, var, e.cases, scope, ov, st, keys, all);
        }
    }
}

proof fn lemma_cases_public(body: Seq<AssertionStmtV>, var: String, cases: Seq<EnumCaseV>, scope: Seq<(String, String)>, ov: Option<usize>, st: Seq<char>, keys: Seq<Seq<char>>, all: Seq<DefinitionV>)
    ensures
        cases_errors(body, var, cases, scope, ov, st, keys, all_public(all)) == cases_errors(body, var, cases, scope, ov, st, keys, all),
    decreases body, 1nat, cases.len(),
{
    if cases.len() > 0 {
        lemma_cases_public(body, var, cases.drop_last(), scope, ov, st, keys, all);
        lemma_stmts_public(body, scope.push((var, cases.last().name)), ov, st, keys, all);
    }
}

proof fn lemma_asserts_public(asserts: Seq<AssertRefV>, st: Seq<char>, keys: Seq<Seq<char>>, all: Seq<DefinitionV>, adefs: Seq<AssertionDefV>)
    ensures
        asserts_errors(asserts, st, keys, all_public(all), adefs) == asserts_errors(asserts, st, keys, all, adefs),
    decreases asserts.len(),
{
    if asserts.len() > 0 {
        lemma_asserts_public(asserts.drop_last(), st, keys, all, adefs);
        match asserts.last() {
            AssertRefV::Inline { body, .. } => lemma_stmts_public(body, Seq::empty(), None, st, keys, all),
            AssertRefV::Named { name, line } => {
                if let Some(ad) = first_assertion(adefs, name@) {
                    lemma_stmts_public(ad.body, Seq::empty(), Some(line), st, keys, all);
                }
            },
        }
    }
}

/// Private types still take part in copy resolution and assertions within their
/// own file: whether definitions are marked `private` changes neither what a
/// copy resolves to nor what a struct's assertions report.
pub proof fn law_private_types_still_resolve(source: StructSourceV, s: StructDefV, all: Seq<DefinitionV>, adefs: Seq<AssertionDefV>)
    ensures
        copy_resolves(source, all_public(all)) == copy_resolves(source, all),
        resolved(source, all_public(all)) == resolved(source, all),
        assert_errors(s, all_public(all), adefs) == assert_errors(s, all, adefs),
{
    lemma_resolve_public(source, all, all.len());
    lemma_copied_keys_public(s.copies, all);
    assert(struct_keys(s, all_public(all)) == struct_keys(s, all));
    lemma_asserts_public(s.asserts, s.name@, struct_keys(s, all), all, adefs);
}

proof fn lemma_fields_ts_append(a: Seq<StructFieldV>, b: Seq<StructFieldV>, mode: OptionalMode)
    ensures
        fields_ts(a + b, mode) == fields_ts(a, mode) + fields_ts(b, mode),
    decreases b.len(),
{
    if b.len() == 0 {
        assert(a + b =~= a);
        assert(fields_ts(a, mode) + Seq::<char>::empty() =~= fields_ts(a, mode));
    } else {
        assert((a + b).drop_last() =~= a + b.drop_last());
        lemma_fields_ts_append(a, b.drop_last(), mode);
        assert(fields_ts(a + b, mode) =~= fields_ts(a, mode) + fields_ts(b, mode));
    }
}

proof fn lemma_copies_ts_fields(copies: Seq<StructSourceV>, all: Seq<DefinitionV>, mode: OptionalMode)
    ensures
        copies_ts(copies, all, mode) == fields_ts(copied_fields(copies, all), mode),
    decreases copies.len(),
{
    if copies.len() > 0 {
        lemma_copies_ts_fields(copies.drop_last(), all, mode);
        let more = match resolved(copies.last(), all) {
            Ok(fs) => fs,
            Err(_) => Seq::empty(),
        };
        lemma_fields_ts_append(copied_fields(copies.drop_last(), all), more, mode);
        if resolved(copies.last(), all) is Err {
            assert(fields_ts(Seq::<StructFieldV>::empty(), mode) == Seq::<char>::empty());
        }
    }
}

/// A struct with `copy` directives compiles as if it had all the copied
/// fields, in order, followed by its own.
pub proof fn law_copies_compile_as_fields(s: StructDefV, mode: OptionalMode, all: Seq<DefinitionV>)
    ensures
        struct_ts(s, mode, all) == struct_ts((StructDefV { copies: Seq::empty(), fields: copied_fields(s.copies, all) + s.fields, ..s }), mode, all),
{
    lemma_copies_ts_fields(s.copies, all, mode);
    lemma_fields_ts_append(copied_fields(s.copies, all), s.fields, mode);
    assert(copies_ts(Seq::<StructSourceV>::empty(), all, mode) == Seq::<char>::empty());
    let flat = StructDefV { copies: Seq::empty(), fields: copied_fields(s.copies, all) + s.fields, ..s };
    assert(struct_ts(s, mode, all) =~= struct_ts(flat, mode, all));
}

/// A successful definition is private exactly when it was written with the
/// `private` prefix, for every kind of definition.
pub proof fn law_private_prefix_marks_private(t: Seq<Spanned>, st: PState)
    ensures
        p_definition(t, st) matches Ok((d, _)) ==> (is_private(d) <==> (tok(t, st) is Ident && tok(t, st)->Ident_0@ == "private"@)),
{
    reveal_strlit("private");
    if let Ok((d, _)) = p_definition(t, st) {
        if tok(t, st) is Ident && tok(t, st)->Ident_0@ == "private"@ {
            assert(d is Const ==> false);
        }
    }
}

/// Importing never makes a name unknown: the names known after an import
/// start with those known before.
proof fn lemma_import_step_keeps_names(st: ImportState, im: ImportV, load: Result<FileV, Seq<char>>)
    ensures
        import_step(st, im, load).names.len() >= st.names.len(),
        import_step(st, im, load).names.subrange(0, st.names.len() as int) == st.names,
{
    let r = import_step(st, im, load);
    assert(r.names.subrange(0, st.names.len() as int) =~= st.names);
}

/// A linked (not `^copy`) import of names that the imported file exports makes
/// each of them a known type name, keeping every name known before; a field of
/// such a type then has no "Undefined type" error.
pub proof fn law_linked_import_makes_names_known(
    st: ImportState,
    path: String,
    types: Seq<String>,
    f: FileV,
    name: String,
    line: usize,
    namespaces: Seq<Seq<char>>,
)
    requires
        texts(types).contains(name@),
        exported_names(f).contains(name@),
    ensures
        import_step(st, (ImportV { path, kind: ImportKindV::Named { copy: false, types } }), Ok(f)).names.contains(name@),
        import_step(st, (ImportV { path, kind: ImportKindV::Named { copy: false, types } }), Ok(f)).names.subrange(0, st.names.len() as int)
            == st.names,
        type_errors(TypeRef::Named(name),
            line,
            import_step(st, (ImportV { path, kind: ImportKindV::Named { copy: false, types } }), Ok(f)).names,
            namespaces,
        ) == Seq::<Seq<char>>::empty(),
{
    let im = ImportV { path, kind: ImportKindV::Named { copy: false, types } };
    lemma_import_step_keeps_names(st, im, Ok(f));
    let known = texts(types).filter(|n: Seq<char>| exported_names(f).contains(n));
    let k = choose|k: int| 0 <= k < texts(types).len() && texts(types)[k] == name@;
    texts(types).lemma_filter_contains(|n: Seq<char>| exported_names(f).contains(n), k);
    let j = choose|j: int| 0 <= j < known.len() && known[j] == name@;
    let r = import_step(st, im, Ok(f));
    assert(r.names == st.names + known);
    assert(r.names[st.names.len() + j] == name@);
}

/// The state after the first `m` imports keeps every name known after the
/// first `k` of them.
proof fn lemma_imports_keep_names(file: FileV, loads: Seq<Result<FileV, Seq<char>>>, k: nat, m: nat)
    requires
        k <= m,
    ensures
        imports_state(file, loads, m).names.len() >= imports_state(file, loads, k).names.len(),
        imports_state(file, loads, m).names.subrange(0, imports_state(file, loads, k).names.len() as int)
            == imports_state(file, loads, k).names,
    decreases m,
{
    let a = imports_state(file, loads, k).names;
    if m == k {
        assert(a.subrange(0, a.len() as int) =~= a);
    } else {
        lemma_imports_keep_names(file, loads, k, (m - 1) as nat);
        let prev = imports_state(file, loads, (m - 1) as nat);
        lemma_import_step_keeps_names(prev, file.imports[m - 1], loads[m - 1]);
        let b = imports_state(file, loads, m).names;
        assert(b.subrange(0, a.len() as int) =~= prev.names.subrange(0, a.len() as int));
    }
}

/// In validation, a name that a linked import of the file exports stays a known
/// type name through all the imports: a field of that type gets no "Undefined
/// type" error.
pub proof fn law_linked_import_names_reach_definitions(
    file: FileV,
    loads: Seq<Result<FileV, Seq<char>>>,
    k: int,
    f: FileV,
    name: String,
    line: usize,
)
    requires
        0 <= k < file.imports.len(),
        file.imports[k].kind matches ImportKindV::Named { copy: false, types } && texts(types).contains(name@),
        loads[k] == Ok::<FileV, Seq<char>>(f),
        exported_names(f).contains(name@),
    ensures
        imports_state(file, loads, file.imports.len()).names.contains(name@),
        type_errors(TypeRef::Named(name), line, imports_state(file, loads, file.imports.len()).names,
            imports_state(file, loads, file.imports.len()).namespaces) == Seq::<Seq<char>>::empty(),
{
    let prev = imports_state(file, loads, k as nat);
    let im = file.imports[k];
    let types = im.kind->Named_types;
    assert(im == (ImportV { path: im.path, kind: ImportKindV::Named { copy: false, types } }));
    law_linked_import_makes_names_known(prev, im.path, types, f, name, line, Seq::empty());
    let after = imports_state(file, loads, (k + 1) as nat);
    assert(after == import_step(prev, im, Ok(f)));
    let w = choose|w: int| 0 <= w < after.names.len() && after.names[w] == name@;
    lemma_imports_keep_names(file, loads, (k + 1) as nat, file.imports.len());
    let fin = imports_state(file, loads, file.imports.len()).names;
    assert(fin.subrange(0, after.names.len() as int)[w] == name@);
    assert(fin[w] == name@);
}

/// The total length of the names.
pub open spec fn names_len(names: Seq<String>) -> int
    decreases names.len(),
{
    if names.len() == 0 { 0 } else { names_len(names.drop_last()) + names.last()@.len() }
}

/// Where the `i`-th name starts when names are joined with `", "`.
pub open spec fn joined_offset(names: Seq<String>, i: int) -> int {
    names_len(names.subrange(0, i)) + 2 * i
}

proof fn lemma_names_len_nonneg(names: Seq<String>)
    ensures
        names_len(names) >= 0,
    decreases names.len(),
{
    if names.len() > 0 {
        lemma_names_len_nonneg(names.drop_last());
    }
}

/// Joining names with `", "` lists every name, in order, each followed by
/// `", "` but the last: the `i`-th name stands at `joined_offset(names, i)`,
/// preceded by `", "` when it is not the first, and nothing else is there.
pub proof fn law_joined_names_list_every_name(names: Seq<String>)
    requires
        names.len() > 0,
    ensures
        join_names(names, ", "@).len() == names_len(names) + 2 * (names.len() - 1),
        forall|i: int| 0 <= i < names.len() ==> 0 <= #[trigger] joined_offset(names, i)
            && joined_offset(names, i) + names[i]@.len() <= join_names(names, ", "@).len(),
        forall|i: int| 0 <= i < names.len() ==> #[trigger] join_names(names, ", "@).subrange(
            joined_offset(names, i), joined_offset(names, i) + names[i]@.len()) == names[i]@,
        forall|i: int| 1 <= i < names.len() ==> #[trigger] join_names(names, ", "@).subrange(
            joined_offset(names, i) - 2, joined_offset(names, i)) == ", "@,
    decreases names.len(),
{
    reveal_strlit(", ");
    let n = names.len();
    let j = join_names(names, ", "@);
    lemma_names_len_nonneg(names);
    if n == 1 {
        assert(names.subrange(0, 0) =~= Seq::<String>::empty());
        assert(names.drop_last() =~= Seq::<String>::empty());
        assert(j.subrange(0, names[0]@.len() as int) =~= j);
        assert(joined_offset(names, 0) == 0);
    } else {
        let pre = names.drop_last();
        law_joined_names_list_every_name(pre);
        let jp = join_names(pre, ", "@);
        assert(j == jp + ", "@ + names.last()@);
        assert(names.subrange(0, n - 1) =~= pre);
        assert forall|i: int| 0 <= i < n implies 0 <= #[trigger] joined_offset(names, i)
            && joined_offset(names, i) + names[i]@.len() <= j.len() by {
            lemma_names_len_nonneg(names.subrange(0, i));
            if i < n - 1 {
                assert(names.subrange(0, i) =~= pre.subrange(0, i));
                assert(joined_offset(names, i) == joined_offset(pre, i));
                assert(joined_offset(pre, i) + pre[i]@.len() <= jp.len());
            } else {
                assert(joined_offset(names, i) == jp.len() + 2);
            }
        };
        assert forall|i: int| 0 <= i < n implies #[trigger] j.subrange(joined_offset(names, i), joined_offset(names, i) + names[i]@.len()) == names[i]@ by {
            lemma_names_len_nonneg(names.subrange(0, i));
            if i < n - 1 {
                assert(names.subrange(0, i) =~= pre.subrange(0, i));
                assert(joined_offset(names, i) == joined_offset(pre, i));
                lemma_names_len_nonneg(pre.subrange(0, i));
                assert(joined_offset(pre, i) + pre[i]@.len() <= jp.len());
                assert(j.subrange(joined_offset(names, i), joined_offset(names, i) + names[i]@.len())
                    =~= jp.subrange(joined_offset(pre, i), joined_offset(pre, i) + pre[i]@.len()));
            } else {
                assert(joined_offset(names, i) == jp.len() + 2);
                assert(j.subrange(joined_offset(names, i), joined_offset(names, i) + names[i]@.len()) =~= names[i]@);
            }
        };
        assert forall|i: int| 1 <= i < n implies #[trigger] j.subrange(joined_offset(names, i) - 2, joined_offset(names, i)) == ", "@ by {
            lemma_names_len_nonneg(names.subrange(0, i));
            if i < n - 1 {
                assert(names.subrange(0, i) =~= pre.subrange(0, i));
                assert(joined_offset(names, i) == joined_offset(pre, i));
                assert(joined_offset(pre, i) + pre[i]@.len() <= jp.len());
                assert(j.subrange(joined_offset(names, i) - 2, joined_offset(names, i))
                    =~= jp.subrange(joined_offset(pre, i) - 2, joined_offset(pre, i)));
            } else {
                assert(joined_offset(names, i) == jp.len() + 2);
                assert(j.subrange(joined_offset(names, i) - 2, joined_offset(names, i)) =~= ", "@);
            }
        };
    }
}

/// The import line of a linked named import: `import type { ` then the names
/// joined with `", "` (which lists every one of them, in order:
/// `law_joined_names_list_every_name`), then ` } from "` and the path without
/// `.wst`.
pub proof fn law_linked_import_line(path: String, types: Seq<String>)
    ensures
        import_line((ImportV { path, kind: ImportKindV::Named { copy: false, types } }))
            == "import type { "@ + join_names(types, ", "@) + " } from \""@ + without_wst_ext(path@) + "\";\n"@,
{
}

/// White space (every character with the Unicode `White_Space` property, tab
/// included) is skipped between tokens: lexing from a white-space character
/// gives the same tokens as lexing from the character after it.
pub proof fn law_white_space_skipped(chars: Seq<char>, s: LexPos, acc: Seq<Spanned>)
    requires
        0 <= s.0 < chars.len(),
        unicode_whitespace(chars[s.0]),
    ensures
        lex_from(chars, s, acc) == lex_from(chars, lex_step(chars, s), acc),
{
}

/// A `^copy` import brings in every definition of the imported file that it
/// names and that the file exports: the definition is among the copied ones and
/// its name becomes known, keeping every name known before.
pub proof fn law_copy_import_brings_named_definitions(st: ImportState, path: String, types: Seq<String>, f: FileV, i: int)
    requires
        0 <= i < f.definitions.len(),
        texts(types).contains(crate::compiler::name_of(f.definitions[i])@),
        exported_names(f).contains(crate::compiler::name_of(f.definitions[i])@),
    ensures
        import_step(st, (ImportV { path, kind: ImportKindV::Named { copy: true, types } }), Ok(f)).copied.contains(f.definitions[i]),
        import_step(st, (ImportV { path, kind: ImportKindV::Named { copy: true, types } }), Ok(f)).names
            .contains(crate::compiler::name_of(f.definitions[i])@),
        import_step(st, (ImportV { path, kind: ImportKindV::Named { copy: true, types } }), Ok(f)).names.subrange(0, st.names.len() as int)
            == st.names,
{
    let im = ImportV { path, kind: ImportKindV::Named { copy: true, types } };
    lemma_import_step_keeps_names(st, im, Ok(f));
    let sel = copy_selection(f, types);
    f.definitions.lemma_filter_contains(
        |d: DefinitionV| texts(types).contains(crate::compiler::name_of(d)@) && exported_names(f).contains(crate::compiler::name_of(d)@), i);
    let j = choose|j: int| 0 <= j < sel.len() && sel[j] == f.definitions[i];
    let r = import_step(st, im, Ok(f));
    assert(r.copied == st.copied + sel);
    assert(r.copied[st.copied.len() + j] == f.definitions[i]);
    assert(r.names == st.names + crate::validator::def_names(sel));
    assert(r.names[st.names.len() + j] == crate::compiler::name_of(f.definitions[i])@);
}

/// A namespace import `* as Ns` of a file that loads makes `Ns.Type` known for
/// every type name.
pub proof fn law_namespace_import_makes_qualified_names_known(st: ImportState, path: String, ns: String, f: FileV, name: Seq<char>, line: usize)
    requires
        first_dot(name) < name.len(),
        name.subrange(0, first_dot(name)) == ns@,
    ensures
        crate::validator::is_available(name, import_step(st, (ImportV { path, kind: ImportKindV::Namespace { name: ns } }), Ok(f)).names,
            import_step(st, (ImportV { path, kind: ImportKindV::Namespace { name: ns } }), Ok(f)).namespaces),
{
    let r = import_step(st, (ImportV { path, kind: ImportKindV::Namespace { name: ns } }), Ok(f));
    assert(r.namespaces[st.namespaces.len() as int] == ns@);
}

} // verus!
