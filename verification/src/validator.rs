//! Semantic checks of a parsed file: every error that the file holds, in order.
use vstd::prelude::*;
use vstd::string::{StrSliceExecFns, StringExecFns};
use crate::ast::{
    AssertRef, AssertionDef, AssertionStmt, ConstDef, Definition, EnumDef, File, Import, ImportKind, ProtocolDef, StructDef, StructField, StructSource, Tag,
    TypeRef, VariantDef,
};
use crate::copy::copy_definition;
use crate::view::stmts_view;
use crate::compiler::{
    copies_resolve, copy_resolves, def_name, defs_view, name_of, resolve_fields, resolve_fueled, resolve_struct_source, resolved,
    source_base,
    struct_copies_resolve,
};
use crate::compiler::typescript::{field_key, field_key_of};
use crate::view::{
    AssertRefV, AssertionDefV, AssertionStmtV, DefinitionV, EndpointV, EnumCaseV, EnumDefV, FileV, ImportKindV, ImportV,
    StructDefV, StructFieldV, StructSourceV, VariantCaseV,
};
use crate::messages::{
    msg_assertion_twice, msg_cannot_load, msg_defined_twice, msg_duplicate_field, msg_enum_not_found,
    msg_missing_excluded, msg_missing_field, msg_not_a_case, msg_not_a_struct, msg_not_an_enum,
    msg_not_exported, msg_private_in, msg_qualifier_undefined, msg_screaming, msg_struct_only_tag,
    msg_unbound, msg_undefined_assertion, msg_undefined_struct, msg_undefined_type, msg_unknown_tag,
    msg_unresolved,
};
use crate::text::{chars_of, copy_string, first_dot, lemma_first_dot, is_ascii_digit, is_ascii_upper, owned, push_decimal, same_text, str_eq, text_is};

verus! {

/// The texts of a list of strings.
pub open spec fn texts(v: Seq<String>) -> Seq<Seq<char>> {
    v.map_values(|s: String| s@)
}

/// The tags that need no namespace.
pub open spec fn builtin_tag(name: Seq<char>) -> bool {
    name == "deprecated"@ || name == "banned"@ || name == "required"@ || name == "optional"@ || name == "nullable"@
}

/// Tags that only struct fields may carry.
pub open spec fn struct_only_tag(name: Seq<char>) -> bool {
    name == "required"@ || name == "optional"@
}

/// The error for one tag, if any; `on_field` when it annotates a struct field.
pub open spec fn tag_error(t: Tag, on_field: bool) -> Seq<Seq<char>> {
    if t.namespace is Some {
        Seq::empty()
    } else if !builtin_tag(t.name@) {
        seq![msg_unknown_tag(t.name@)]
    } else if !on_field && struct_only_tag(t.name@) {
        seq![msg_struct_only_tag(t.name@)]
    } else {
        Seq::empty()
    }
}

pub open spec fn tag_errors(tags: Seq<Tag>, on_field: bool) -> Seq<Seq<char>>
    decreases tags.len(),
{
    if tags.len() == 0 { Seq::empty() } else { tag_errors(tags.drop_last(), on_field) + tag_error(tags.last(), on_field) }
}

/// Appends `m` as a new error.
fn push_error(errors: &mut Vec<String>, m: String)
    ensures
        texts(final(errors)@) == texts(old(errors)@).push(m@),
{
    let ghost before = errors@;
    errors.push(m);
    assert(texts(errors@) =~= texts(before).push(m@));
}

fn check_tags(tags: &Vec<Tag>, on_field: bool, errors: &mut Vec<String>)
    ensures
        texts(final(errors)@) == texts(old(errors)@) + tag_errors(tags@, on_field),
{
    let ghost head = texts(errors@);
    let mut i: usize = 0;
    while i < tags.len()
        invariant
            i <= tags.len(),
            texts(errors@) == head + tag_errors(tags@.subrange(0, i as int), on_field),
        decreases tags.len() - i,
    {
        let tag = &tags[i];
        let ghost mid = texts(errors@);
        if tag.namespace.is_none() {
            let n = tag.name.as_str();
            let builtin = str_eq(n, "deprecated") || str_eq(n, "banned") || str_eq(n, "required")
                || str_eq(n, "optional") || str_eq(n, "nullable");
            if !builtin {
                let mut m = String::new();
                m.append("Unknown tag '#");
                m.append(n);
                m.append("'; custom tags require a namespace prefix (e.g. '#myorg:");
                m.append(n);
                m.append("')");
                assert(m@ =~= msg_unknown_tag(tag.name@));
                push_error(errors, m);
            } else if !on_field && (str_eq(n, "required") || str_eq(n, "optional")) {
                let mut m = String::new();
                m.append("'#");
                m.append(n);
                m.append("' is only valid on struct fields");
                assert(m@ =~= msg_struct_only_tag(tag.name@));
                push_error(errors, m);
            }
        }
        assert(tags@.subrange(0, i + 1).drop_last() =~= tags@.subrange(0, i as int));
        assert(texts(errors@) =~= mid + tag_error(tags@[i as int], on_field));
        i = i + 1;
    }
    assert(tags@.subrange(0, tags.len() as int) =~= tags@);
}

/// A named type is known: a defined or imported name, or `Ns.Type` for an
/// imported namespace `Ns`.
pub open spec fn is_available(name: Seq<char>, names: Seq<Seq<char>>, namespaces: Seq<Seq<char>>) -> bool {
    names.contains(name) || (first_dot(name) < name.len() && namespaces.contains(name.subrange(0, first_dot(name))))
}

/// The index of the first `.` in `s`, or its length.
fn find_first_dot(cs: &Vec<char>) -> (r: usize)
    ensures
        r == first_dot(cs@),
{
    let mut i: usize = 0;
    proof {
        assert(cs@.subrange(0, cs@.len() as int) =~= cs@);
    }
    while i < cs.len() && cs[i] != '.'
        invariant
            i <= cs.len(),
            first_dot(cs@) == i + first_dot(cs@.subrange(i as int, cs@.len() as int)),
        decreases cs.len() - i,
    {
        assert(cs@.subrange(i as int, cs@.len() as int).drop_first() =~= cs@.subrange(i + 1, cs@.len() as int));
        i = i + 1;
    }
    i
}

/// Whether one of `names` spells `n`.
fn has_text(names: &Vec<String>, n: &str) -> (r: bool)
    ensures
        r == texts(names@).contains(n@),
{
    let mut i: usize = 0;
    while i < names.len()
        invariant
            i <= names.len(),
            forall|j: int| 0 <= j < i ==> #[trigger] texts(names@)[j] != n@,
        decreases names.len() - i,
    {
        if str_eq(names[i].as_str(), n) {
            assert(texts(names@)[i as int] == n@);
            return true;
        }
        i = i + 1;
    }
    false
}

fn available(name: &String, names: &Vec<String>, namespaces: &Vec<String>) -> (r: bool)
    ensures
        r == is_available(name@, texts(names@), texts(namespaces@)),
{
    if has_text(names, name.as_str()) {
        return true;
    }
    let cs = chars_of(name.as_str());
    let d = find_first_dot(&cs);
    if d < cs.len() {
        let prefix = name.as_str().substring_char(0, d);
        has_text(namespaces, prefix)
    } else {
        false
    }
}

/// Errors for the named types in `ty` that are not known, reported at `line`.
pub open spec fn type_errors(ty: TypeRef, line: usize, names: Seq<Seq<char>>, namespaces: Seq<Seq<char>>) -> Seq<Seq<char>>
    decreases ty,
{
    match ty {
        TypeRef::Primitive(_) => Seq::empty(),
        TypeRef::Named(name) => if is_available(name@, names, namespaces) {
            Seq::empty()
        } else {
            seq![msg_undefined_type(line, name@)]
        },
        TypeRef::Vec(inner) => type_errors(*inner, line, names, namespaces),
        TypeRef::KeyMap { value, .. } => type_errors(*value, line, names, namespaces),
    }
}

fn check_type(ty: &TypeRef, line: usize, names: &Vec<String>, namespaces: &Vec<String>, errors: &mut Vec<String>)
    ensures
        texts(final(errors)@) == texts(old(errors)@) + type_errors(*ty, line, texts(names@), texts(namespaces@)),
    decreases ty,
{
    match ty {
        TypeRef::Primitive(_) => {
            assert(texts(errors@) =~= texts(errors@) + Seq::<Seq<char>>::empty());
        },
        TypeRef::Named(name) => {
            if !available(name, names, namespaces) {
                let mut m = String::new();
                push_decimal(&mut m, line);
                m.append(":0: Undefined type '");
                m.append(name.as_str());
                m.append("'");
                assert(m@ =~= msg_undefined_type(line, name@));
                let ghost before = texts(errors@);
                push_error(errors, m);
                assert(texts(errors@) =~= before + seq![m@]);
            } else {
                assert(texts(errors@) =~= texts(errors@) + Seq::<Seq<char>>::empty());
            }
        },
        TypeRef::Vec(inner) => check_type(inner, line, names, namespaces, errors),
        TypeRef::KeyMap { value, .. } => check_type(value, line, names, namespaces, errors),
    }
}

/// SCREAMING_CASE: an ASCII upper-case letter first, then only upper-case
/// letters, digits and `_`.
pub open spec fn is_screaming_case(s: Seq<char>) -> bool {
    &&& s.len() > 0
    &&& is_ascii_upper(s[0])
    &&& forall|i: int| 0 <= i < s.len() ==> is_ascii_upper(#[trigger] s[i]) || is_ascii_digit(s[i]) || s[i] == '_'
}

fn screaming_case(s: &String) -> (r: bool)
    ensures
        r == is_screaming_case(s@),
{
    let cs = chars_of(s.as_str());
    if cs.len() == 0 {
        return false;
    }
    if !('A' <= cs[0] && cs[0] <= 'Z') {
        return false;
    }
    let mut i: usize = 0;
    while i < cs.len()
        invariant
            i <= cs.len(),
            cs@ == s@,
            forall|j: int| 0 <= j < i ==> is_ascii_upper(#[trigger] cs@[j]) || is_ascii_digit(cs@[j]) || cs@[j] == '_',
        decreases cs.len() - i,
    {
        let c = cs[i];
        if !(('A' <= c && c <= 'Z') || ('0' <= c && c <= '9') || c == '_') {
            assert(!(is_ascii_upper(cs@[i as int]) || is_ascii_digit(cs@[i as int]) || cs@[i as int] == '_'));
            return false;
        }
        i = i + 1;
    }
    true
}

/// The names of a list of definitions.
pub open spec fn def_names(defs: Seq<DefinitionV>) -> Seq<Seq<char>> {
    defs.map_values(|d: DefinitionV| name_of(d)@)
}

/// One error for each definition whose name an earlier one already has.
pub open spec fn duplicate_def_errors(defs: Seq<DefinitionV>) -> Seq<Seq<char>>
    decreases defs.len(),
{
    if defs.len() == 0 {
        Seq::empty()
    } else {
        let n = name_of(defs.last())@;
        duplicate_def_errors(defs.drop_last()) + if def_names(defs.drop_last()).contains(n) {
            seq![msg_defined_twice(n)]
        } else {
            Seq::empty()
        }
    }
}

/// One error for each assertion definition whose name an earlier one already has.
pub open spec fn duplicate_assertion_errors(adefs: Seq<AssertionDefV>) -> Seq<Seq<char>>
    decreases adefs.len(),
{
    if adefs.len() == 0 {
        Seq::empty()
    } else {
        let n = adefs.last().name@;
        duplicate_assertion_errors(adefs.drop_last()) + if adefs.drop_last().map_values(|a: AssertionDefV| a.name@).contains(n) {
            seq![msg_assertion_twice(n)]
        } else {
            Seq::empty()
        }
    }
}

/// A definition marked `private`; constants never are.
pub open spec fn is_private(d: DefinitionV) -> bool {
    match d {
        DefinitionV::Enum(e) => e.private,
        DefinitionV::Variant(v) => v.private,
        DefinitionV::Struct(s) => s.private,
        DefinitionV::Protocol(p) => p.private,
        DefinitionV::Const(_) => false,
    }
}

/// The names a file exports: those of its definitions that are not private.
pub open spec fn exported_names(f: FileV) -> Seq<Seq<char>> {
    def_names(f.definitions.filter(|d: DefinitionV| !is_private(d)))
}

/// The names of a file's private definitions.
pub open spec fn private_names(f: FileV) -> Seq<Seq<char>> {
    def_names(f.definitions.filter(|d: DefinitionV| is_private(d)))
}

/// The type names a file defines itself: every definition but the constants.
pub open spec fn local_names(defs: Seq<DefinitionV>) -> Seq<Seq<char>> {
    def_names(defs.filter(|d: DefinitionV| !(d is Const)))
}

/// What the imports have made known so far, and the errors they gave.
pub struct ImportState {
    /// Type names that can be referred to.
    pub names: Seq<Seq<char>>,
    /// Namespaces of `* as Ns` imports.
    pub namespaces: Seq<Seq<char>>,
    /// Definitions brought in by `^copy` imports.
    pub copied: Seq<DefinitionV>,
    pub errors: Seq<Seq<char>>,
}

/// The definitions of `f` that a `^copy` import of `types` brings in: those it
/// names and that `f` exports.
pub open spec fn copy_selection(f: FileV, types: Seq<String>) -> Seq<DefinitionV> {
    f.definitions.filter(|d: DefinitionV| texts(types).contains(name_of(d)@) && exported_names(f).contains(name_of(d)@))
}

/// The errors for names that a linked import asks for and `f` does not export.
pub open spec fn linked_errors(types: Seq<String>, f: FileV, path: Seq<char>) -> Seq<Seq<char>>
    decreases types.len(),
{
    if types.len() == 0 {
        Seq::empty()
    } else {
        let n = types.last()@;
        linked_errors(types.drop_last(), f, path) + if exported_names(f).contains(n) {
            Seq::empty()
        } else if private_names(f).contains(n) {
            seq![msg_private_in(n, path)]
        } else {
            seq![msg_not_exported(n, path)]
        }
    }
}

/// One import, given what loading its file gave: the parsed file or why it failed.
pub open spec fn import_step(st: ImportState, im: ImportV, load: Result<FileV, Seq<char>>) -> ImportState {
    match load {
        Err(why) => ImportState { errors: st.errors.push(msg_cannot_load(im.path@, why)), ..st },
        Ok(f) => match im.kind {
            ImportKindV::Named { copy, types } => if copy {
                let sel = copy_selection(f, types);
                ImportState { names: st.names + def_names(sel), copied: st.copied + sel, ..st }
            } else {
                ImportState {
                    names: st.names + texts(types).filter(|n: Seq<char>| exported_names(f).contains(n)),
                    errors: st.errors + linked_errors(types, f, im.path@),
                    ..st
                }
            },
            ImportKindV::Namespace { name } => ImportState { namespaces: st.namespaces.push(name@), ..st },
        },
    }
}

/// The state after the first `n` imports of `file`; `loads[k]` is what loading
/// the file of import `k` gave.
pub open spec fn imports_state(file: FileV, loads: Seq<Result<FileV, Seq<char>>>, n: nat) -> ImportState
    decreases n,
{
    if n == 0 {
        ImportState {
            names: local_names(file.definitions),
            namespaces: Seq::empty(),
            copied: Seq::empty(),
            errors: duplicate_def_errors(file.definitions),
        }
    } else {
        import_step(imports_state(file, loads, (n - 1) as nat), file.imports[n - 1], loads[n - 1])
    }
}

/// The first definition called `name`.
pub open spec fn first_named(defs: Seq<DefinitionV>, name: Seq<char>) -> Option<DefinitionV>
    decreases defs.len(),
{
    if defs.len() == 0 {
        None
    } else if name_of(defs[0])@ == name {
        Some(defs[0])
    } else {
        first_named(defs.drop_first(), name)
    }
}

/// The first enum called `name`.
pub open spec fn first_enum(defs: Seq<DefinitionV>, name: Seq<char>) -> Option<EnumDefV>
    decreases defs.len(),
{
    if defs.len() == 0 {
        None
    } else if defs[0] is Enum && defs[0]->Enum_0.name@ == name {
        Some(defs[0]->Enum_0)
    } else {
        first_enum(defs.drop_first(), name)
    }
}

/// The first assertion definition called `name`.
pub open spec fn first_assertion(adefs: Seq<AssertionDefV>, name: Seq<char>) -> Option<AssertionDefV>
    decreases adefs.len(),
{
    if adefs.len() == 0 {
        None
    } else if adefs[0].name@ == name {
        Some(adefs[0])
    } else {
        first_assertion(adefs.drop_first(), name)
    }
}

/// The names of a list of fields.
pub open spec fn field_names(fs: Seq<StructFieldV>) -> Seq<Seq<char>> {
    fs.map_values(|f: StructFieldV| f.name@)
}

/// Errors for the names in an `@exclude` list that no field of the base has.
pub open spec fn missing_excluded_errors(exclude: Seq<String>, fs: Seq<StructFieldV>, base: Seq<char>) -> Seq<Seq<char>>
    decreases exclude.len(),
{
    if exclude.len() == 0 {
        Seq::empty()
    } else {
        let n = exclude.last()@;
        missing_excluded_errors(exclude.drop_last(), fs, base) + if field_names(fs).contains(n) {
            Seq::empty()
        } else {
            seq![msg_missing_excluded(n, base)]
        }
    }
}

/// Adds the names of `fields` to the names already `seen`, with an error for
/// each name seen before: the new seen names and the errors. `base` is the
/// struct whose copy brings the fields in, or none for the struct's own fields.
pub open spec fn duplicate_fields(fields: Seq<StructFieldV>, seen: Seq<Seq<char>>, st: Seq<char>, base: Option<Seq<char>>) -> (Seq<Seq<char>>, Seq<Seq<char>>)
    decreases fields.len(),
{
    if fields.len() == 0 {
        (seen, Seq::empty())
    } else {
        let (s, e) = duplicate_fields(fields.drop_last(), seen, st, base);
        let n = fields.last().name@;
        if s.contains(n) {
            (s, e.push(msg_duplicate_field(n, st, base)))
        } else {
            (s.push(n), e)
        }
    }
}

/// One copy source of the struct `st`, given the field names seen so far: the
/// new seen names and the errors.
pub open spec fn copy_source_step(st: Seq<char>, source: StructSourceV, all: Seq<DefinitionV>, names: Seq<Seq<char>>, seen: Seq<Seq<char>>) -> (Seq<Seq<char>>, Seq<Seq<char>>) {
    let base = source_base(source)@;
    if !names.contains(base) {
        (seen, seq![msg_undefined_struct(base)])
    } else {
        match first_named(all, base) {
            None => (seen, Seq::empty()),
            Some(d) => if !(d is Struct) {
                (seen, seq![msg_not_a_struct(base)])
            } else {
                let excl = match source {
                    StructSourceV::Exclude { exclude, .. } => match resolved(StructSourceV::Named { name: source_base(source) }, all) {
                        Ok(fs) => missing_excluded_errors(exclude, fs, base),
                        Err(_) => Seq::empty(),
                    },
                    StructSourceV::Named { .. } => Seq::empty(),
                };
                match resolved(source, all) {
                    Ok(fields) => {
                        let (s2, dups) = duplicate_fields(fields, seen, st, Some(base));
                        (s2, excl + dups)
                    },
                    Err(missing) => (seen, excl.push(msg_unresolved(missing@))),
                }
            },
        }
    }
}

/// The struct's own fields, then its first `k` copy sources: the field names
/// seen and the errors. A field name may appear only once among all of them.
pub open spec fn copies_fold(s: StructDefV, k: nat, all: Seq<DefinitionV>, names: Seq<Seq<char>>) -> (Seq<Seq<char>>, Seq<Seq<char>>)
    decreases k,
{
    if k == 0 {
        duplicate_fields(s.fields, Seq::empty(), s.name@, None)
    } else {
        let (seen, e) = copies_fold(s, (k - 1) as nat, all, names);
        let (seen2, e2) = copy_source_step(s.name@, s.copies[k - 1], all, names, seen);
        (seen2, e + e2)
    }
}

/// The errors of the fields of `s`, its own and copied: repeated names, and
/// those of its copy sources.
pub open spec fn copy_errors(s: StructDefV, all: Seq<DefinitionV>, names: Seq<Seq<char>>) -> Seq<Seq<char>> {
    copies_fold(s, s.copies.len(), all, names).1
}

/// The output names of a list of fields.
pub open spec fn field_keys(fs: Seq<StructFieldV>) -> Seq<Seq<char>> {
    fs.map_values(|f: StructFieldV| field_key(f.name@))
}

/// The output names of the fields that the resolvable copy sources bring in.
pub open spec fn copied_keys(copies: Seq<StructSourceV>, all: Seq<DefinitionV>) -> Seq<Seq<char>>
    decreases copies.len(),
{
    if copies.len() == 0 {
        Seq::empty()
    } else {
        copied_keys(copies.drop_last(), all) + match resolved(copies.last(), all) {
            Ok(fs) => field_keys(fs),
            Err(_) => Seq::empty(),
        }
    }
}

/// The output names of all fields of `s`, its own and copied ones.
pub open spec fn struct_keys(s: StructDefV, all: Seq<DefinitionV>) -> Seq<Seq<char>> {
    field_keys(s.fields) + copied_keys(s.copies, all)
}

/// The value bound to `key` by the innermost loop that binds it.
pub open spec fn lookup(scope: Seq<(String, String)>, key: Seq<char>) -> Option<String>
    decreases scope.len(),
{
    if scope.len() == 0 {
        None
    } else if scope.last().0@ == key {
        Some(scope.last().1)
    } else {
        lookup(scope.drop_last(), key)
    }
}

/// The errors of assertion statements on the struct `st` whose field names are
/// `keys`; `line` replaces the statements' own lines when it is given.
pub open spec fn stmts_errors(stmts: Seq<AssertionStmtV>, scope: Seq<(String, String)>, line: Option<usize>, st: Seq<char>, keys: Seq<Seq<char>>, all: Seq<DefinitionV>) -> Seq<Seq<char>>
    decreases stmts, 0nat, 0nat,
{
    if stmts.len() == 0 {
        Seq::empty()
    } else {
        stmts_errors(stmts.subrange(0, stmts.len() - 1), scope, line, st, keys, all)
            + stmt_errors(stmts[stmts.len() - 1], scope, line, st, keys, all)
    }
}

/// The errors of one assertion statement.
pub open spec fn stmt_errors(stmt: AssertionStmtV, scope: Seq<(String, String)>, line: Option<usize>, st: Seq<char>, keys: Seq<Seq<char>>, all: Seq<DefinitionV>) -> Seq<Seq<char>>
    decreases stmt, 2nat, 0nat,
{
    match stmt {
        AssertionStmtV::ForIn { var, source, body, line: own } => {
            let at = match line { Some(l) => l, None => own };
            match first_enum(all, source@) {
                None => seq![msg_enum_not_found(at, source@, st)],
                Some(e) => cases_errors(body, var, e.cases, scope, line, st, keys, all),
            }
        },
        AssertionStmtV::HasKey { key, line: own, .. } => {
            let at = match line { Some(l) => l, None => own };
            match lookup(scope, key@) {
                None => seq![msg_unbound(at, st, key@)],
                Some(v) => if keys.contains(v@) { Seq::empty() } else { seq![msg_missing_field(at, st, v@)] },
            }
        },
    }
}

/// The errors of a loop body run once for each of `cases`, with `var` bound to
/// the case's name.
pub open spec fn cases_errors(body: Seq<AssertionStmtV>, var: String, cases: Seq<EnumCaseV>, scope: Seq<(String, String)>, line: Option<usize>, st: Seq<char>, keys: Seq<Seq<char>>, all: Seq<DefinitionV>) -> Seq<Seq<char>>
    decreases body, 1nat, cases.len(),
{
    if cases.len() == 0 {
        Seq::empty()
    } else {
        cases_errors(body, var, cases.drop_last(), scope, line, st, keys, all)
            + stmts_errors(body, scope.push((var, cases.last().name)), line, st, keys, all)
    }
}

/// The errors of one assertion attached to the struct `st`.
pub open spec fn assert_ref_errors(a: AssertRefV, st: Seq<char>, keys: Seq<Seq<char>>, all: Seq<DefinitionV>, adefs: Seq<AssertionDefV>) -> Seq<Seq<char>> {
    match a {
        AssertRefV::Inline { body, .. } => stmts_errors(body, Seq::empty(), None, st, keys, all),
        AssertRefV::Named { name, line } => match first_assertion(adefs, name@) {
            None => seq![msg_undefined_assertion(line, name@)],
            Some(ad) => stmts_errors(ad.body, Seq::empty(), Some(line), st, keys, all),
        },
    }
}

pub open spec fn asserts_errors(asserts: Seq<AssertRefV>, st: Seq<char>, keys: Seq<Seq<char>>, all: Seq<DefinitionV>, adefs: Seq<AssertionDefV>) -> Seq<Seq<char>>
    decreases asserts.len(),
{
    if asserts.len() == 0 {
        Seq::empty()
    } else {
        asserts_errors(asserts.drop_last(), st, keys, all, adefs) + assert_ref_errors(asserts.last(), st, keys, all, adefs)
    }
}

/// The errors of the assertions attached to `s`.
pub open spec fn assert_errors(s: StructDefV, all: Seq<DefinitionV>, adefs: Seq<AssertionDefV>) -> Seq<Seq<char>> {
    asserts_errors(s.asserts, s.name@, struct_keys(s, all), all, adefs)
}

/// The errors of a field name `Q.case`, whose qualifier must be an enum with
/// that case; a name without `.` has none.
pub open spec fn field_key_errors(name: Seq<char>, line: usize, all: Seq<DefinitionV>) -> Seq<Seq<char>> {
    let d = first_dot(name);
    if d >= name.len() {
        Seq::empty()
    } else {
        let q = name.subrange(0, d);
        let case = name.subrange(d + 1, name.len() as int);
        match first_named(all, q) {
            None => seq![msg_qualifier_undefined(line, q, name)],
            Some(DefinitionV::Enum(e)) => if e.cases.map_values(|c: EnumCaseV| c.name@).contains(case) {
                Seq::empty()
            } else {
                seq![msg_not_a_case(line, case, q)]
            },
            Some(_) => seq![msg_not_an_enum(line, q, name)],
        }
    }
}

pub open spec fn enum_cases_errors(cs: Seq<EnumCaseV>) -> Seq<Seq<char>>
    decreases cs.len(),
{
    if cs.len() == 0 { Seq::empty() } else { enum_cases_errors(cs.drop_last()) + tag_errors(cs.last().tags, false) }
}

pub open spec fn variant_cases_errors(cs: Seq<VariantCaseV>, names: Seq<Seq<char>>, ns: Seq<Seq<char>>) -> Seq<Seq<char>>
    decreases cs.len(),
{
    if cs.len() == 0 {
        Seq::empty()
    } else {
        let c = cs.last();
        variant_cases_errors(cs.drop_last(), names, ns) + type_errors(c.ty, c.line, names, ns) + tag_errors(c.tags, false)
    }
}

pub open spec fn fields_errors(fs: Seq<StructFieldV>, all: Seq<DefinitionV>, names: Seq<Seq<char>>, ns: Seq<Seq<char>>) -> Seq<Seq<char>>
    decreases fs.len(),
{
    if fs.len() == 0 {
        Seq::empty()
    } else {
        let f = fs.last();
        fields_errors(fs.drop_last(), all, names, ns) + type_errors(f.ty, f.line, names, ns) + tag_errors(f.tags, true)
            + field_key_errors(f.name@, f.line, all)
    }
}

/// The errors of an endpoint's error type, when it has one.
pub open spec fn error_type_errors(t: Option<TypeRef>, line: usize, names: Seq<Seq<char>>, ns: Seq<Seq<char>>) -> Seq<Seq<char>> {
    match t {
        Some(t) => type_errors(t, line, names, ns),
        None => Seq::empty(),
    }
}

pub open spec fn endpoints_errors(eps: Seq<EndpointV>, names: Seq<Seq<char>>, ns: Seq<Seq<char>>) -> Seq<Seq<char>>
    decreases eps.len(),
{
    if eps.len() == 0 {
        Seq::empty()
    } else {
        let e = eps.last();
        endpoints_errors(eps.drop_last(), names, ns) + type_errors(e.request, e.line, names, ns)
            + type_errors(e.response, e.line, names, ns) + error_type_errors(e.error, e.line, names, ns)
            + tag_errors(e.tags, false)
    }
}

/// The errors of one definition of the file.
pub open spec fn def_errors(d: DefinitionV, all: Seq<DefinitionV>, names: Seq<Seq<char>>, ns: Seq<Seq<char>>, adefs: Seq<AssertionDefV>) -> Seq<Seq<char>> {
    match d {
        DefinitionV::Enum(e) => tag_errors(e.tags, false) + enum_cases_errors(e.cases),
        DefinitionV::Variant(v) => tag_errors(v.tags, false) + variant_cases_errors(v.cases, names, ns),
        DefinitionV::Struct(s) => tag_errors(s.tags, false) + copy_errors(s, all, names) + assert_errors(s, all, adefs)
            + fields_errors(s.fields, all, names, ns),
        DefinitionV::Protocol(p) => tag_errors(p.tags, false) + endpoints_errors(p.endpoints, names, ns),
        DefinitionV::Const(c) => if is_screaming_case(c.name@) { Seq::empty() } else { seq![msg_screaming(c.name@)] },
    }
}

pub open spec fn defs_errors(ds: Seq<DefinitionV>, all: Seq<DefinitionV>, names: Seq<Seq<char>>, ns: Seq<Seq<char>>, adefs: Seq<AssertionDefV>) -> Seq<Seq<char>>
    decreases ds.len(),
{
    if ds.len() == 0 {
        Seq::empty()
    } else {
        defs_errors(ds.drop_last(), all, names, ns, adefs) + def_errors(ds.last(), all, names, ns, adefs)
    }
}

/// What loading an import gave, as a value.
pub open spec fn load_view(l: Result<File, String>) -> Result<FileV, Seq<char>> {
    match l {
        Ok(f) => Ok(f@),
        Err(e) => Err(e@),
    }
}

/// What loading each import gave, as values.
pub open spec fn loads_view(loads: Seq<Result<File, String>>) -> Seq<Result<FileV, Seq<char>>> {
    loads.map_values(|l: Result<File, String>| load_view(l))
}

/// Validating a struct resolves its copy source `c`: when the base is a known
/// name that is first defined as a struct, or when the struct has assertions.
pub open spec fn resolved_in_validation(c: StructSourceV, has_asserts: bool, all: Seq<DefinitionV>, names: Seq<Seq<char>>) -> bool {
    has_asserts || (names.contains(source_base(c)@) && (first_named(all, source_base(c)@) matches Some(d) && d is Struct))
}

/// Every copy source that validating `s` resolves ends (`copy_resolves`).
pub open spec fn struct_validation_ends(s: StructDefV, all: Seq<DefinitionV>, names: Seq<Seq<char>>) -> bool {
    forall|i: int| 0 <= i < s.copies.len() && resolved_in_validation(s.copies[i], s.asserts.len() > 0, all, names)
        ==> #[trigger] copy_resolves(s.copies[i], all)
}

/// Validating the definition `d` ends.
pub open spec fn def_validation_ends(d: DefinitionV, all: Seq<DefinitionV>, names: Seq<Seq<char>>) -> bool {
    d is Struct ==> struct_validation_ends(d->Struct_0, all, names)
}

/// Validating `file` ends: every copy that it resolves ends. Otherwise some
/// chain of copies comes back to a struct it passed and never ends.
pub open spec fn validation_ends(file: FileV, loads: Seq<Result<FileV, Seq<char>>>) -> bool {
    let st = imports_state(file, loads, file.imports.len());
    forall|i: int| 0 <= i < file.definitions.len() ==> #[trigger] def_validation_ends(file.definitions[i], st.copied + file.definitions, st.names)
}

/// The definitions that copies are resolved against in validation: those that
/// the `^copy` imports bring in, then the file's own.
pub open spec fn validation_defs(file: FileV, loads: Seq<Result<FileV, Seq<char>>>) -> Seq<DefinitionV> {
    imports_state(file, loads, file.imports.len()).copied + file.definitions
}

/// Every error that validating `file` reports, in order: repeated definition
/// names and the imports' errors (`imports_state`), then each definition's,
/// then repeated assertion names.
pub open spec fn validation_errors(file: FileV, loads: Seq<Result<FileV, Seq<char>>>) -> Seq<Seq<char>> {
    let st = imports_state(file, loads, file.imports.len());
    let all = st.copied + file.definitions;
    st.errors + defs_errors(file.definitions, all, st.names, st.namespaces, file.assertion_defs)
        + duplicate_assertion_errors(file.assertion_defs)
}

pub proof fn lemma_push_contains<A>(a: Seq<A>, x: A, n: A)
    ensures
        a.push(x).contains(n) == (a.contains(n) || x == n),
{
    if a.contains(n) {
        let k = choose|k: int| 0 <= k < a.len() && a[k] == n;
        assert(a.push(x)[k] == n);
    }
    if x == n {
        assert(a.push(x)[a.len() as int] == n);
    }
    if a.push(x).contains(n) {
        let k = choose|k: int| 0 <= k < a.len() + 1 && a.push(x)[k] == n;
        if k < a.len() {
            assert(a[k] == n);
        }
    }
}

fn check_duplicate_defs(defs: &Vec<Definition>, errors: &mut Vec<String>)
    ensures
        texts(final(errors)@) == texts(old(errors)@) + duplicate_def_errors(defs_view(defs@)),
{
    let ghost head = texts(errors@);
    let ghost dv = defs_view(defs@);
    let mut seen: Vec<String> = Vec::new();
    let mut i: usize = 0;
    while i < defs.len()
        invariant
            i <= defs.len(),
            dv == defs_view(defs@),
            texts(seen@) == def_names(dv.subrange(0, i as int)),
            texts(errors@) == head + duplicate_def_errors(dv.subrange(0, i as int)),
        decreases defs.len() - i,
    {
        let name = def_name(&defs[i]);
        let ghost pre = dv.subrange(0, i + 1);
        assert(pre.drop_last() =~= dv.subrange(0, i as int));
        assert(pre.last() == dv[i as int]);
        let ghost before = texts(errors@);
        if has_text(&seen, name) {
            let mut m = String::new();
            m.append("'");
            m.append(name);
            m.append("' is defined more than once");
            assert(m@ =~= msg_defined_twice(name@));
            push_error(errors, m);
            assert(texts(errors@) =~= before + seq![msg_defined_twice(name@)]);
        } else {
            assert(texts(errors@) =~= before + Seq::<Seq<char>>::empty());
        }
        let ghost sb = seen@;
        let o = owned(name);
        seen.push(o);
        assert(texts(seen@) =~= texts(sb).push(name@));
        assert(def_names(pre) =~= def_names(dv.subrange(0, i as int)).push(name_of(dv[i as int])@));
        i = i + 1;
    }
    assert(dv.subrange(0, defs.len() as int) =~= dv);
}

fn local_type_names(defs: &Vec<Definition>) -> (r: Vec<String>)
    ensures
        texts(r@) == local_names(defs_view(defs@)),
{
    let ghost dv = defs_view(defs@);
    let mut out: Vec<String> = Vec::new();
    let mut i: usize = 0;
    while i < defs.len()
        invariant
            i <= defs.len(),
            dv == defs_view(defs@),
            texts(out@) == def_names(dv.subrange(0, i as int).filter(|d: DefinitionV| !(d is Const))),
        decreases defs.len() - i,
    {
        let ghost pre = dv.subrange(0, i + 1);
        assert(pre.drop_last() =~= dv.subrange(0, i as int));
        reveal_with_fuel(Seq::<DefinitionV>::filter, 1);
        match &defs[i] {
            Definition::Const(_) => {},
            _ => {
                let ghost ob = out@;
                out.push(owned(def_name(&defs[i])));
                assert(texts(out@) =~= texts(ob).push(name_of(dv[i as int])@));
            },
        }
        assert(texts(out@) =~= def_names(pre.filter(|d: DefinitionV| !(d is Const))));
        i = i + 1;
    }
    assert(dv.subrange(0, defs.len() as int) =~= dv);
    out
}

fn check_enum(e: &EnumDef, errors: &mut Vec<String>)
    ensures
        texts(final(errors)@) == texts(old(errors)@) + tag_errors(e@.tags, false) + enum_cases_errors(e@.cases),
{
    let ghost head = texts(errors@);
    check_tags(&e.tags, false, errors);
    let ghost mid = texts(errors@);
    let ghost cs = e@.cases;
    let mut i: usize = 0;
    while i < e.cases.len()
        invariant
            i <= e.cases.len(),
            cs == e@.cases,
            texts(errors@) == mid + enum_cases_errors(cs.subrange(0, i as int)),
        decreases e.cases.len() - i,
    {
        assert(cs.subrange(0, i + 1).drop_last() =~= cs.subrange(0, i as int));
        assert(cs[i as int].tags == e.cases@[i as int].tags@);
        check_tags(&e.cases[i].tags, false, errors);
        i = i + 1;
    }
    assert(cs.subrange(0, e.cases.len() as int) =~= cs);
}

fn check_variant(v: &VariantDef, names: &Vec<String>, namespaces: &Vec<String>, errors: &mut Vec<String>)
    ensures
        texts(final(errors)@) == texts(old(errors)@) + tag_errors(v@.tags, false)
            + variant_cases_errors(v@.cases, texts(names@), texts(namespaces@)),
{
    check_tags(&v.tags, false, errors);
    let ghost mid = texts(errors@);
    let ghost cs = v@.cases;
    let mut i: usize = 0;
    while i < v.cases.len()
        invariant
            i <= v.cases.len(),
            cs == v@.cases,
            texts(errors@) == mid + variant_cases_errors(cs.subrange(0, i as int), texts(names@), texts(namespaces@)),
        decreases v.cases.len() - i,
    {
        assert(cs.subrange(0, i + 1).drop_last() =~= cs.subrange(0, i as int));
        let c = &v.cases[i];
        check_type(&c.ty, c.line, names, namespaces, errors);
        check_tags(&c.tags, false, errors);
        i = i + 1;
    }
    assert(cs.subrange(0, v.cases.len() as int) =~= cs);
}

fn check_protocol(p: &ProtocolDef, names: &Vec<String>, namespaces: &Vec<String>, errors: &mut Vec<String>)
    ensures
        texts(final(errors)@) == texts(old(errors)@) + tag_errors(p@.tags, false)
            + endpoints_errors(p@.endpoints, texts(names@), texts(namespaces@)),
{
    check_tags(&p.tags, false, errors);
    let ghost mid = texts(errors@);
    let ghost es = p@.endpoints;
    let mut i: usize = 0;
    while i < p.endpoints.len()
        invariant
            i <= p.endpoints.len(),
            es == p@.endpoints,
            texts(errors@) == mid + endpoints_errors(es.subrange(0, i as int), texts(names@), texts(namespaces@)),
        decreases p.endpoints.len() - i,
    {
        assert(es.subrange(0, i + 1).drop_last() =~= es.subrange(0, i as int));
        let ep = &p.endpoints[i];
        check_type(&ep.request, ep.line, names, namespaces, errors);
        check_type(&ep.response, ep.line, names, namespaces, errors);
        match &ep.error {
            Some(t) => check_type(t, ep.line, names, namespaces, errors),
            None => {
                assert(texts(errors@) =~= texts(errors@) + Seq::<Seq<char>>::empty());
            },
        }
        check_tags(&ep.tags, false, errors);
        i = i + 1;
    }
    assert(es.subrange(0, p.endpoints.len() as int) =~= es);
}

fn check_const(c: &ConstDef, errors: &mut Vec<String>)
    ensures
        texts(final(errors)@) == texts(old(errors)@) + (if is_screaming_case(c.name@) {
            Seq::<Seq<char>>::empty()
        } else {
            seq![msg_screaming(c.name@)]
        }),
{
    if !screaming_case(&c.name) {
        let mut m = String::new();
        m.append("Constant '");
        m.append(c.name.as_str());
        m.append("' must be SCREAMING_CASE (e.g. MY_CONSTANT)");
        assert(m@ =~= msg_screaming(c.name@));
        push_error(errors, m);
    } else {
        assert(texts(errors@) =~= texts(errors@) + Seq::<Seq<char>>::empty());
    }
}

fn check_duplicate_assertions(adefs: &Vec<AssertionDef>, errors: &mut Vec<String>)
    ensures
        texts(final(errors)@) == texts(old(errors)@) + duplicate_assertion_errors(adefs@.map_values(|a: AssertionDef| a@)),
{
    let ghost head = texts(errors@);
    let ghost av = adefs@.map_values(|a: AssertionDef| a@);
    let mut seen: Vec<String> = Vec::new();
    let mut i: usize = 0;
    while i < adefs.len()
        invariant
            i <= adefs.len(),
            av == adefs@.map_values(|a: AssertionDef| a@),
            texts(seen@) == av.subrange(0, i as int).map_values(|a: AssertionDefV| a.name@),
            texts(errors@) == head + duplicate_assertion_errors(av.subrange(0, i as int)),
        decreases adefs.len() - i,
    {
        let name = &adefs[i].name;
        let ghost pre = av.subrange(0, i + 1);
        assert(pre.drop_last() =~= av.subrange(0, i as int));
        assert(pre.last() == av[i as int]);
        let ghost before = texts(errors@);
        if has_text(&seen, name.as_str()) {
            let mut m = String::new();
            m.append("Assertion '");
            m.append(name.as_str());
            m.append("' is defined more than once");
            assert(m@ =~= msg_assertion_twice(name@));
            push_error(errors, m);
            assert(texts(errors@) =~= before + seq![msg_assertion_twice(name@)]);
        } else {
            assert(texts(errors@) =~= before + Seq::<Seq<char>>::empty());
        }
        let ghost sb = seen@;
        seen.push(copy_string(name));
        assert(texts(seen@) =~= texts(sb).push(name@));
        assert(pre.map_values(|a: AssertionDefV| a.name@) =~= av.subrange(0, i as int).map_values(|a: AssertionDefV| a.name@).push(av[i as int].name@));
        i = i + 1;
    }
    assert(av.subrange(0, adefs.len() as int) =~= av);
}

fn def_private(d: &Definition) -> (r: bool)
    ensures
        r == is_private(d@),
{
    match d {
        Definition::Enum(e) => e.private,
        Definition::Variant(v) => v.private,
        Definition::Struct(s) => s.private,
        Definition::Protocol(p) => p.private,
        Definition::Const(_) => false,
    }
}

/// Whether a definition of `f` called `n` is private (`want`) or not.
fn names_with_privacy(f: &File, n: &str, want: bool) -> (r: bool)
    ensures
        r == def_names(f@.definitions.filter(|d: DefinitionV| is_private(d) == want)).contains(n@),
{
    let ghost dv = f@.definitions;
    let mut found = false;
    let mut j: usize = 0;
    while j < f.definitions.len()
        invariant
            j <= f.definitions.len(),
            dv == f@.definitions,
            found == def_names(dv.subrange(0, j as int).filter(|d: DefinitionV| is_private(d) == want)).contains(n@),
        decreases f.definitions.len() - j,
    {
        let ghost pre = dv.subrange(0, j + 1);
        assert(pre.drop_last() =~= dv.subrange(0, j as int));
        reveal_with_fuel(Seq::<DefinitionV>::filter, 1);
        let d = &f.definitions[j];
        assert(dv[j as int] == d@);
        if def_private(d) == want {
            let ghost prev = dv.subrange(0, j as int).filter(|d: DefinitionV| is_private(d) == want);
            assert(def_names(prev.push(d@)) =~= def_names(prev).push(name_of(d@)@));
            proof {
                lemma_push_contains(def_names(prev), name_of(d@)@, n@);
            }
            found = found || str_eq(def_name(d), n);
        }
        j = j + 1;
    }
    assert(dv.subrange(0, f.definitions.len() as int) =~= dv);
    found
}

/// Whether `f` exports a definition called `n`.
fn exports(f: &File, n: &str) -> (r: bool)
    ensures
        r == exported_names(f@).contains(n@),
{
    let r = names_with_privacy(f, n, false);
    assert((|d: DefinitionV| is_private(d) == false) =~= (|d: DefinitionV| !is_private(d)));
    r
}

/// Whether `f` has a private definition called `n`.
fn defines_privately(f: &File, n: &str) -> (r: bool)
    ensures
        r == private_names(f@).contains(n@),
{
    let r = names_with_privacy(f, n, true);
    assert((|d: DefinitionV| is_private(d) == true) =~= (|d: DefinitionV| is_private(d)));
    r
}

/// The lists `names`, `namespaces`, `copied` and `errors` hold the state `st`.
pub open spec fn tracks(st: ImportState, names: Seq<String>, namespaces: Seq<String>, copied: Seq<Definition>, errors: Seq<String>) -> bool {
    &&& texts(names) == st.names
    &&& texts(namespaces) == st.namespaces
    &&& defs_view(copied) == st.copied
    &&& texts(errors) == st.errors
}

fn process_import(
    im: &Import,
    load: &Result<File, String>,
    names: &mut Vec<String>,
    namespaces: &mut Vec<String>,
    copied: &mut Vec<Definition>,
    errors: &mut Vec<String>,
    Ghost(st): Ghost<ImportState>,
)
    requires
        tracks(st, old(names)@, old(namespaces)@, old(copied)@, old(errors)@),
    ensures
        tracks(import_step(st, im@, load_view(*load)), final(names)@, final(namespaces)@, final(copied)@, final(errors)@),
{
    match load {
        Err(why) => {
            let mut m = String::new();
            m.append("Cannot load import '");
            m.append(im.path.as_str());
            m.append("': ");
            m.append(why.as_str());
            assert(m@ =~= msg_cannot_load(im.path@, why@));
            push_error(errors, m);
        },
        Ok(f) => match &im.kind {
            ImportKind::Named { copy, types } => {
                if *copy {
                    let ghost dv = f@.definitions;
                    let mut j: usize = 0;
                    while j < f.definitions.len()
                        invariant
                            j <= f.definitions.len(),
                            dv == f@.definitions,
                            texts(names@) == st.names + def_names(dv.subrange(0, j as int).filter(
                                |d: DefinitionV| texts(types@).contains(name_of(d)@) && exported_names(f@).contains(name_of(d)@))),
                            defs_view(copied@) == st.copied + dv.subrange(0, j as int).filter(
                                |d: DefinitionV| texts(types@).contains(name_of(d)@) && exported_names(f@).contains(name_of(d)@)),
                            texts(namespaces@) == st.namespaces,
                            texts(errors@) == st.errors,
                        decreases f.definitions.len() - j,
                    {
                        let ghost pre = dv.subrange(0, j + 1);
                        assert(pre.drop_last() =~= dv.subrange(0, j as int));
                        reveal_with_fuel(Seq::<DefinitionV>::filter, 1);
                        let d = &f.definitions[j];
                        assert(dv[j as int] == d@);
                        let nm = def_name(d);
                        if has_text(types, nm) && exports(f, nm) {
                            let ghost prev = dv.subrange(0, j as int).filter(
                                |d: DefinitionV| texts(types@).contains(name_of(d)@) && exported_names(f@).contains(name_of(d)@));
                            let ghost nb = names@;
                            let ghost cb = copied@;
                            names.push(owned(nm));
                            copied.push(copy_definition(d));
                            assert(texts(names@) =~= texts(nb).push(nm@));
                            assert(def_names(prev.push(d@)) =~= def_names(prev).push(name_of(d@)@));
                            assert(defs_view(copied@) =~= defs_view(cb).push(d@));
                        }
                        j = j + 1;
                    }
                    assert(dv.subrange(0, f.definitions.len() as int) =~= dv);
                } else {
                    let ghost tv = texts(types@);
                    let mut k: usize = 0;
                    while k < types.len()
                        invariant
                            k <= types.len(),
                            tv == texts(types@),
                            im@.path == im.path,
                            texts(names@) == st.names + tv.subrange(0, k as int).filter(|n: Seq<char>| exported_names(f@).contains(n)),
                            texts(errors@) == st.errors + linked_errors(types@.subrange(0, k as int), f@, im.path@),
                            defs_view(copied@) == st.copied,
                            texts(namespaces@) == st.namespaces,
                        decreases types.len() - k,
                    {
                        assert(tv.subrange(0, k + 1).drop_last() =~= tv.subrange(0, k as int));
                        assert(types@.subrange(0, k + 1).drop_last() =~= types@.subrange(0, k as int));
                        reveal_with_fuel(Seq::<Seq<char>>::filter, 1);
                        let t = &types[k];
                        assert(tv[k as int] == t@);
                        let ghost nb = names@;
                        let ghost eb = texts(errors@);
                        if exports(f, t.as_str()) {
                            names.push(copy_string(t));
                            assert(texts(names@) =~= texts(nb).push(t@));
                            assert(texts(errors@) =~= eb + Seq::<Seq<char>>::empty());
                        } else if defines_privately(f, t.as_str()) {
                            let mut m = String::new();
                            m.append("'");
                            m.append(t.as_str());
                            m.append("' is private in '");
                            m.append(im.path.as_str());
                            m.append("'");
                            assert(m@ =~= msg_private_in(t@, im.path@));
                            push_error(errors, m);
                            assert(texts(errors@) =~= eb + seq![msg_private_in(t@, im.path@)]);
                        } else {
                            let mut m = String::new();
                            m.append("'");
                            m.append(t.as_str());
                            m.append("' is not exported by '");
                            m.append(im.path.as_str());
                            m.append("'");
                            assert(m@ =~= msg_not_exported(t@, im.path@));
                            push_error(errors, m);
                            assert(texts(errors@) =~= eb + seq![msg_not_exported(t@, im.path@)]);
                        }
                        k = k + 1;
                    }
                    assert(tv.subrange(0, types.len() as int) =~= tv);
                    assert(types@.subrange(0, types.len() as int) =~= types@);
                }
            },
            ImportKind::Namespace { name } => {
                let ghost nb = namespaces@;
                namespaces.push(copy_string(name));
                assert(texts(namespaces@) =~= texts(nb).push(name@));
            },
        },
    }
}

/// The views of a list of fields.
pub open spec fn fields_view(fs: Seq<StructField>) -> Seq<StructFieldV> {
    fs.map_values(|f: StructField| f@)
}

fn find_named<'a>(defs: &'a Vec<Definition>, name: &str) -> (r: Option<&'a Definition>)
    ensures
        match first_named(defs_view(defs@), name@) {
            Some(d) => r is Some && r->0@ == d,
            None => r is None,
        },
{
    let ghost dv = defs_view(defs@);
    assert(dv.subrange(0, dv.len() as int) =~= dv);
    let mut i: usize = 0;
    while i < defs.len()
        invariant
            i <= defs.len(),
            dv == defs_view(defs@),
            first_named(dv, name@) == first_named(dv.subrange(i as int, dv.len() as int), name@),
        decreases defs.len() - i,
    {
        assert(dv.subrange(i as int, dv.len() as int).drop_first() =~= dv.subrange(i + 1, dv.len() as int));
        if str_eq(def_name(&defs[i]), name) {
            return Some(&defs[i]);
        }
        i = i + 1;
    }
    None
}

/// Whether one of `fields` is called `n`.
fn fields_have(fields: &Vec<StructField>, n: &String) -> (r: bool)
    ensures
        r == field_names(fields_view(fields@)).contains(n@),
{
    let ghost fv = fields_view(fields@);
    let mut found = false;
    let mut j: usize = 0;
    while j < fields.len()
        invariant
            j <= fields.len(),
            fv == fields_view(fields@),
            found == field_names(fv.subrange(0, j as int)).contains(n@),
        decreases fields.len() - j,
    {
        assert(field_names(fv.subrange(0, j + 1)) =~= field_names(fv.subrange(0, j as int)).push(fields@[j as int].name@));
        proof {
            lemma_push_contains(field_names(fv.subrange(0, j as int)), fields@[j as int].name@, n@);
        }
        found = found || same_text(&fields[j].name, n);
        j = j + 1;
    }
    assert(fv.subrange(0, fields.len() as int) =~= fv);
    found
}

fn check_excluded(exclude: &Vec<String>, fields: &Vec<StructField>, base: &String, errors: &mut Vec<String>)
    ensures
        texts(final(errors)@) == texts(old(errors)@) + missing_excluded_errors(exclude@, fields_view(fields@), base@),
{
    let ghost head = texts(errors@);
    let mut k: usize = 0;
    while k < exclude.len()
        invariant
            k <= exclude.len(),
            texts(errors@) == head + missing_excluded_errors(exclude@.subrange(0, k as int), fields_view(fields@), base@),
        decreases exclude.len() - k,
    {
        assert(exclude@.subrange(0, k + 1).drop_last() =~= exclude@.subrange(0, k as int));
        let ghost before = texts(errors@);
        let e = &exclude[k];
        if !fields_have(fields, e) {
            let mut m = String::new();
            m.append("Field '");
            m.append(e.as_str());
            m.append("' does not exist in struct '");
            m.append(base.as_str());
            m.append("'");
            assert(m@ =~= msg_missing_excluded(e@, base@));
            push_error(errors, m);
            assert(texts(errors@) =~= before + seq![msg_missing_excluded(e@, base@)]);
        } else {
            assert(texts(errors@) =~= before + Seq::<Seq<char>>::empty());
        }
        k = k + 1;
    }
    assert(exclude@.subrange(0, exclude.len() as int) =~= exclude@);
}

/// The text of a struct name, when there is one.
pub open spec fn name_text(base: Option<String>) -> Option<Seq<char>> {
    match base {
        Some(b) => Some(b@),
        None => None,
    }
}

fn record_fields(fields: &Vec<StructField>, st: &String, base: &Option<String>, seen: &mut Vec<String>, errors: &mut Vec<String>)
    ensures
        texts(final(seen)@) == duplicate_fields(fields_view(fields@), texts(old(seen)@), st@, name_text(*base)).0,
        texts(final(errors)@) == texts(old(errors)@) + duplicate_fields(fields_view(fields@), texts(old(seen)@), st@, name_text(*base)).1,
{
    let ghost s0 = texts(seen@);
    let ghost head = texts(errors@);
    let ghost fv = fields_view(fields@);
    let mut j: usize = 0;
    while j < fields.len()
        invariant
            j <= fields.len(),
            fv == fields_view(fields@),
            texts(seen@) == duplicate_fields(fv.subrange(0, j as int), s0, st@, name_text(*base)).0,
            texts(errors@) == head + duplicate_fields(fv.subrange(0, j as int), s0, st@, name_text(*base)).1,
        decreases fields.len() - j,
    {
        assert(fv.subrange(0, j + 1).drop_last() =~= fv.subrange(0, j as int));
        let f = &fields[j];
        assert(fv.subrange(0, j + 1).last() == f@);
        let ghost before = texts(errors@);
        let ghost sb = seen@;
        if has_text(seen, f.name.as_str()) {
            let mut m = String::new();
            m.append("Duplicate field '");
            m.append(f.name.as_str());
            m.append("' in struct '");
            m.append(st.as_str());
            m.append("'");
            match base {
                Some(b) => {
                    m.append(" (from copy of '");
                    m.append(b.as_str());
                    m.append("')");
                },
                None => {},
            }
            assert(m@ =~= msg_duplicate_field(f.name@, st@, name_text(*base)));
            push_error(errors, m);
            assert(texts(errors@) =~= before.push(msg_duplicate_field(f.name@, st@, name_text(*base))));
        } else {
            seen.push(copy_string(&f.name));
            assert(texts(seen@) =~= texts(sb).push(f.name@));
        }
        j = j + 1;
    }
    assert(fv.subrange(0, fields.len() as int) =~= fv);
}

/// Resolving the base of a source ends when resolving the source does.
proof fn lemma_base_resolves(source: StructSourceV, defs: Seq<DefinitionV>, fuel: nat)
    requires
        resolve_fields(source, defs, fuel) is Some,
    ensures
        resolve_fields((StructSourceV::Named { name: source_base(source) }), defs, fuel) is Some,
{
}

fn check_copy_source(st: &String, source: &StructSource, all: &Vec<Definition>, names: &Vec<String>, seen: &mut Vec<String>, errors: &mut Vec<String>)
    requires
        resolved_in_validation(source@, false, defs_view(all@), texts(names@)) ==> copy_resolves(source@, defs_view(all@)),
    ensures
        texts(final(seen)@) == copy_source_step(st@, source@, defs_view(all@), texts(names@), texts(old(seen)@)).0,
        texts(final(errors)@) == texts(old(errors)@) + copy_source_step(st@, source@, defs_view(all@), texts(names@), texts(old(seen)@)).1,
{
    let ghost allv = defs_view(all@);
    let ghost head = texts(errors@);
    let base = match source {
        StructSource::Named { name } => name,
        StructSource::Exclude { base, .. } => base,
    };
    assert(base@ == source_base(source@)@);
    if !has_text(names, base.as_str()) {
        let mut m = String::new();
        m.append("Undefined struct '");
        m.append(base.as_str());
        m.append("' in copy");
        assert(m@ =~= msg_undefined_struct(base@));
        push_error(errors, m);
        assert(texts(errors@) =~= head + seq![msg_undefined_struct(base@)]);
        return;
    }
    match find_named(all, base.as_str()) {
        None => {
            assert(texts(errors@) =~= head + Seq::<Seq<char>>::empty());
            return;
        },
        Some(d) => match d {
            Definition::Struct(_) => {},
            _ => {
                let mut m = String::new();
                m.append("'");
                m.append(base.as_str());
                m.append("' is not a struct; only structs can be copied");
                assert(m@ =~= msg_not_a_struct(base@));
                push_error(errors, m);
                assert(texts(errors@) =~= head + seq![msg_not_a_struct(base@)]);
                return;
            },
        },
    }
    match source {
        StructSource::Exclude { exclude, .. } => {
            let named = StructSource::Named { name: copy_string(base) };
            assert(named@ == StructSourceV::Named { name: source_base(source@) });
            proof {
                lemma_base_resolves(source@, allv, allv.len());
            }
            match resolve_struct_source(&named, all.as_slice()) {
                Ok(fields) => check_excluded(exclude, &fields, base, errors),
                Err(_) => {
                    assert(texts(errors@) =~= head + Seq::<Seq<char>>::empty());
                },
            }
        },
        StructSource::Named { .. } => {
            assert(texts(errors@) =~= head + Seq::<Seq<char>>::empty());
        },
    }
    let ghost mid = texts(errors@);
    match resolve_struct_source(source, all.as_slice()) {
        Ok(fields) => {
            let from = Some(copy_string(base));
            record_fields(&fields, st, &from, seen, errors);
            assert(texts(errors@) =~= head + (mid.subrange(head.len() as int, mid.len() as int) + duplicate_fields(fields_view(fields@), texts(old(seen)@), st@, Some(base@)).1));
        },
        Err(e) => {
            let mut m = String::new();
            m.append("Cannot resolve struct '");
            m.append(e.name.as_str());
            m.append("' for copy");
            assert(m@ =~= msg_unresolved(e.name@));
            push_error(errors, m);
            assert(texts(errors@) =~= head + mid.subrange(head.len() as int, mid.len() as int).push(msg_unresolved(e.name@)));
        },
    }
}

fn check_copies(s: &StructDef, all: &Vec<Definition>, names: &Vec<String>, errors: &mut Vec<String>)
    requires
        struct_validation_ends(s@, defs_view(all@), texts(names@)),
    ensures
        texts(final(errors)@) == texts(old(errors)@) + copy_errors(s@, defs_view(all@), texts(names@)),
{
    let ghost allv = defs_view(all@);
    let ghost head = texts(errors@);
    let mut seen: Vec<String> = Vec::new();
    assert(texts(seen@) =~= Seq::<Seq<char>>::empty());
    record_fields(&s.fields, &s.name, &None, &mut seen, errors);
    assert(fields_view(s.fields@) == s@.fields);
    let mut k: usize = 0;
    while k < s.copies.len()
        invariant
            k <= s.copies.len(),
            allv == defs_view(all@),
            struct_validation_ends(s@, allv, texts(names@)),
            texts(seen@) == copies_fold(s@, k as nat, allv, texts(names@)).0,
            texts(errors@) == head + copies_fold(s@, k as nat, allv, texts(names@)).1,
        decreases s.copies.len() - k,
    {
        assert(s@.copies[k as int] == s.copies@[k as int]@);
        assert(k < s@.copies.len());
        assert(resolved_in_validation(s@.copies[k as int], false, allv, texts(names@)) ==> copy_resolves(s@.copies[k as int], allv));
        let ghost e0 = texts(errors@);
        check_copy_source(&s.name, &s.copies[k], all, names, &mut seen, errors);
        assert(texts(errors@) =~= head + (copies_fold(s@, k as nat, allv, texts(names@)).1
            + copy_source_step(s@.name@, s@.copies[k as int], allv, texts(names@), copies_fold(s@, k as nat, allv, texts(names@)).0).1));
        k = k + 1;
    }
}

/// Whether `e` has a case called `n`.
fn has_case(e: &EnumDef, n: &str) -> (r: bool)
    ensures
        r == e@.cases.map_values(|c: EnumCaseV| c.name@).contains(n@),
{
    let ghost cs = e@.cases;
    let mut found = false;
    let mut j: usize = 0;
    while j < e.cases.len()
        invariant
            j <= e.cases.len(),
            cs == e@.cases,
            found == cs.subrange(0, j as int).map_values(|c: EnumCaseV| c.name@).contains(n@),
        decreases e.cases.len() - j,
    {
        assert(cs.subrange(0, j + 1).map_values(|c: EnumCaseV| c.name@) =~= cs.subrange(0, j as int).map_values(|c: EnumCaseV| c.name@).push(e.cases@[j as int].name@));
        proof {
            lemma_push_contains(cs.subrange(0, j as int).map_values(|c: EnumCaseV| c.name@), e.cases@[j as int].name@, n@);
        }
        found = found || str_eq(e.cases[j].name.as_str(), n);
        j = j + 1;
    }
    assert(cs.subrange(0, e.cases.len() as int) =~= cs);
    found
}

fn check_field_key(name: &String, line: usize, all: &Vec<Definition>, errors: &mut Vec<String>)
    ensures
        texts(final(errors)@) == texts(old(errors)@) + field_key_errors(name@, line, defs_view(all@)),
{
    let ghost head = texts(errors@);
    let cs = chars_of(name.as_str());
    let d = find_first_dot(&cs);
    proof {
        lemma_first_dot(cs@);
    }
    if d >= cs.len() {
        assert(texts(errors@) =~= head + Seq::<Seq<char>>::empty());
        return;
    }
    let q = name.as_str().substring_char(0, d);
    let case = name.as_str().substring_char(d + 1, cs.len());
    match find_named(all, q) {
        None => {
            let mut m = String::new();
            push_decimal(&mut m, line);
            m.append(":0: '");
            m.append(q);
            m.append("' in field key '");
            m.append(name.as_str());
            m.append("' is not defined");
            assert(m@ =~= msg_qualifier_undefined(line, q@, name@));
            push_error(errors, m);
            assert(texts(errors@) =~= head + seq![msg_qualifier_undefined(line, q@, name@)]);
        },
        Some(Definition::Enum(e)) => {
            if !has_case(e, case) {
                let mut m = String::new();
                push_decimal(&mut m, line);
                m.append(":0: '");
                m.append(case);
                m.append("' is not a case of enum '");
                m.append(q);
                m.append("'");
                assert(m@ =~= msg_not_a_case(line, case@, q@));
                push_error(errors, m);
                assert(texts(errors@) =~= head + seq![msg_not_a_case(line, case@, q@)]);
            } else {
                assert(texts(errors@) =~= head + Seq::<Seq<char>>::empty());
            }
        },
        Some(_) => {
            let mut m = String::new();
            push_decimal(&mut m, line);
            m.append(":0: '");
            m.append(q);
            m.append("' in field key '");
            m.append(name.as_str());
            m.append("' is not an enum");
            assert(m@ =~= msg_not_an_enum(line, q@, name@));
            push_error(errors, m);
            assert(texts(errors@) =~= head + seq![msg_not_an_enum(line, q@, name@)]);
        },
    }
}

fn check_fields(fields: &Vec<StructField>, all: &Vec<Definition>, names: &Vec<String>, namespaces: &Vec<String>, errors: &mut Vec<String>)
    ensures
        texts(final(errors)@) == texts(old(errors)@) + fields_errors(fields_view(fields@), defs_view(all@), texts(names@), texts(namespaces@)),
{
    let ghost head = texts(errors@);
    let ghost fv = fields_view(fields@);
    let mut i: usize = 0;
    while i < fields.len()
        invariant
            i <= fields.len(),
            fv == fields_view(fields@),
            texts(errors@) == head + fields_errors(fv.subrange(0, i as int), defs_view(all@), texts(names@), texts(namespaces@)),
        decreases fields.len() - i,
    {
        assert(fv.subrange(0, i + 1).drop_last() =~= fv.subrange(0, i as int));
        let f = &fields[i];
        assert(fv.subrange(0, i + 1).last() == f@);
        check_type(&f.ty, f.line, names, namespaces, errors);
        check_tags(&f.tags, true, errors);
        check_field_key(&f.name, f.line, all, errors);
        i = i + 1;
    }
    assert(fv.subrange(0, fields.len() as int) =~= fv);
}

fn push_field_keys(out: &mut Vec<String>, fields: &Vec<StructField>)
    ensures
        texts(final(out)@) == texts(old(out)@) + field_keys(fields_view(fields@)),
{
    let ghost head = texts(out@);
    let ghost fv = fields_view(fields@);
    let mut j: usize = 0;
    while j < fields.len()
        invariant
            j <= fields.len(),
            fv == fields_view(fields@),
            texts(out@) == head + field_keys(fv.subrange(0, j as int)),
        decreases fields.len() - j,
    {
        let ghost ob = out@;
        let k = field_key_of(fields[j].name.as_str());
        out.push(owned(k));
        assert(texts(out@) =~= texts(ob).push(field_key(fields@[j as int].name@)));
        assert(field_keys(fv.subrange(0, j + 1)) =~= field_keys(fv.subrange(0, j as int)).push(field_key(fields@[j as int].name@)));
        j = j + 1;
    }
    assert(fv.subrange(0, fields.len() as int) =~= fv);
}

/// The output names of all fields of `s`, its own and copied ones.
fn struct_key_list(s: &StructDef, all: &Vec<Definition>) -> (r: Vec<String>)
    requires
        struct_copies_resolve(DefinitionV::Struct(s@), defs_view(all@)),
    ensures
        texts(r@) == struct_keys(s@, defs_view(all@)),
{
    let ghost allv = defs_view(all@);
    let mut out: Vec<String> = Vec::new();
    push_field_keys(&mut out, &s.fields);
    let ghost own = texts(out@);
    let mut k: usize = 0;
    while k < s.copies.len()
        invariant
            k <= s.copies.len(),
            allv == defs_view(all@),
            struct_copies_resolve(DefinitionV::Struct(s@), allv),
            own == field_keys(s@.fields),
            texts(out@) == own + copied_keys(s@.copies.subrange(0, k as int), allv),
        decreases s.copies.len() - k,
    {
        assert(s@.copies.subrange(0, k + 1).drop_last() =~= s@.copies.subrange(0, k as int));
        assert(s@.copies.subrange(0, k + 1).last() == s.copies@[k as int]@);
        assert(DefinitionV::Struct(s@)->Struct_0 == s@);
        assert(k < s@.copies.len());
        assert(copy_resolves(s@.copies[k as int], allv));
        let ghost before = texts(out@);
        match resolve_struct_source(&s.copies[k], all.as_slice()) {
            Ok(fields) => push_field_keys(&mut out, &fields),
            Err(_) => {
                assert(texts(out@) =~= before + Seq::<Seq<char>>::empty());
            },
        }
        k = k + 1;
    }
    assert(s@.copies.subrange(0, s.copies.len() as int) =~= s@.copies);
    out
}

/// The value bound to `key` by the innermost loop that binds it.
fn lookup_var<'a>(scope: &'a Vec<(String, String)>, key: &String) -> (r: Option<&'a String>)
    ensures
        match lookup(scope@, key@) {
            Some(v) => r is Some && *r->0 == v,
            None => r is None,
        },
{
    let mut i: usize = scope.len();
    assert(scope@.subrange(0, i as int) =~= scope@);
    while i > 0
        invariant
            i <= scope.len(),
            lookup(scope@, key@) == lookup(scope@.subrange(0, i as int), key@),
        decreases i,
    {
        assert(scope@.subrange(0, i as int).drop_last() =~= scope@.subrange(0, i - 1));
        assert(scope@.subrange(0, i as int).last() == scope@[i - 1]);
        if same_text(&scope[i - 1].0, key) {
            return Some(&scope[i - 1].1);
        }
        i = i - 1;
    }
    None
}

fn find_enum<'a>(defs: &'a Vec<Definition>, name: &str) -> (r: Option<&'a EnumDef>)
    ensures
        match first_enum(defs_view(defs@), name@) {
            Some(e) => r is Some && r->0@ == e,
            None => r is None,
        },
{
    let ghost dv = defs_view(defs@);
    assert(dv.subrange(0, dv.len() as int) =~= dv);
    let mut i: usize = 0;
    while i < defs.len()
        invariant
            i <= defs.len(),
            dv == defs_view(defs@),
            first_enum(dv, name@) == first_enum(dv.subrange(i as int, dv.len() as int), name@),
        decreases defs.len() - i,
    {
        assert(dv.subrange(i as int, dv.len() as int).drop_first() =~= dv.subrange(i + 1, dv.len() as int));
        match &defs[i] {
            Definition::Enum(e) => {
                if str_eq(e.name.as_str(), name) {
                    return Some(e);
                }
            },
            _ => {},
        }
        i = i + 1;
    }
    None
}

fn find_assertion<'a>(adefs: &'a Vec<AssertionDef>, name: &String) -> (r: Option<&'a AssertionDef>)
    ensures
        match first_assertion(adefs@.map_values(|a: AssertionDef| a@), name@) {
            Some(a) => r is Some && r->0@ == a,
            None => r is None,
        },
{
    let ghost av = adefs@.map_values(|a: AssertionDef| a@);
    assert(av.subrange(0, av.len() as int) =~= av);
    let mut i: usize = 0;
    while i < adefs.len()
        invariant
            i <= adefs.len(),
            av == adefs@.map_values(|a: AssertionDef| a@),
            first_assertion(av, name@) == first_assertion(av.subrange(i as int, av.len() as int), name@),
        decreases adefs.len() - i,
    {
        assert(av.subrange(i as int, av.len() as int).drop_first() =~= av.subrange(i + 1, av.len() as int));
        if same_text(&adefs[i].name, name) {
            return Some(&adefs[i]);
        }
        i = i + 1;
    }
    None
}

fn check_stmts(
    st: &String,
    stmts: &Vec<AssertionStmt>,
    scope: &mut Vec<(String, String)>,
    line: Option<usize>,
    keys: &Vec<String>,
    all: &Vec<Definition>,
    errors: &mut Vec<String>,
)
    ensures
        final(scope)@ == old(scope)@,
        texts(final(errors)@) == texts(old(errors)@) + stmts_errors(stmts_view(stmts@), old(scope)@, line, st@, texts(keys@), defs_view(all@)),
    decreases stmts, 0nat,
{
    let ghost head = texts(errors@);
    let ghost sc = scope@;
    let ghost sv = stmts_view(stmts@);
    let mut i: usize = 0;
    while i < stmts.len()
        invariant
            i <= stmts.len(),
            scope@ == sc,
            sv == stmts_view(stmts@),
            texts(errors@) == head + stmts_errors(sv.subrange(0, i as int), sc, line, st@, texts(keys@), defs_view(all@)),
        decreases stmts.len() - i,
    {
        let ghost pre = sv.subrange(0, i + 1);
        assert(pre.subrange(0, pre.len() - 1) =~= sv.subrange(0, i as int));
        assert(pre[pre.len() - 1] == stmts@[i as int]@);
        assert(decreases_to!(stmts => stmts@[i as int]));
        check_stmt(st, &stmts[i], scope, line, keys, all, errors);
        i = i + 1;
    }
    assert(sv.subrange(0, stmts.len() as int) =~= sv);
}

fn check_stmt(
    st: &String,
    stmt: &AssertionStmt,
    scope: &mut Vec<(String, String)>,
    line: Option<usize>,
    keys: &Vec<String>,
    all: &Vec<Definition>,
    errors: &mut Vec<String>,
)
    ensures
        final(scope)@ == old(scope)@,
        texts(final(errors)@) == texts(old(errors)@) + stmt_errors(stmt@, old(scope)@, line, st@, texts(keys@), defs_view(all@)),
    decreases stmt, 1nat,
{
    let ghost head = texts(errors@);
    let ghost sc = scope@;
    match stmt {
        AssertionStmt::ForIn { var, source, body, line: own } => {
            let at = match line {
                Some(l) => l,
                None => *own,
            };
            match find_enum(all, source.as_str()) {
                None => {
                    let mut m = String::new();
                    push_decimal(&mut m, at);
                    m.append(":0: Enum '");
                    m.append(source.as_str());
                    m.append("' not found for assertion on '");
                    m.append(st.as_str());
                    m.append("'; only locally-defined and ^copy-imported enums can be used");
                    assert(m@ =~= msg_enum_not_found(at, source@, st@));
                    push_error(errors, m);
                    assert(texts(errors@) =~= head + seq![msg_enum_not_found(at, source@, st@)]);
                },
                Some(e) => {
                    let ghost cs = e@.cases;
                    assert(decreases_to!(stmt => body));
                    let mut c: usize = 0;
                    while c < e.cases.len()
                        invariant
                            decreases_to!(stmt => body),
                            c <= e.cases.len(),
                            cs == e@.cases,
                            scope@ == sc,
                            texts(errors@) == head + cases_errors(stmts_view(body@), *var, cs.subrange(0, c as int), sc, line, st@, texts(keys@), defs_view(all@)),
                        decreases e.cases.len() - c,
                    {
                        assert(cs.subrange(0, c + 1).drop_last() =~= cs.subrange(0, c as int));
                        assert(cs.subrange(0, c + 1).last().name == e.cases@[c as int].name);
                        scope.push((copy_string(var), copy_string(&e.cases[c].name)));
                        check_stmts(st, body, scope, line, keys, all, errors);
                        let _ = scope.pop();
                        assert(scope@ =~= sc);
                        c = c + 1;
                    }
                    assert(cs.subrange(0, e.cases.len() as int) =~= cs);
                },
            }
        },
        AssertionStmt::HasKey { key, line: own, .. } => {
            let at = match line {
                Some(l) => l,
                None => *own,
            };
            match lookup_var(scope, key) {
                None => {
                    let mut m = String::new();
                    push_decimal(&mut m, at);
                    m.append(":0: In assertion on '");
                    m.append(st.as_str());
                    m.append("': '$");
                    m.append(key.as_str());
                    m.append("'  is not bound (not a loop variable)");
                    assert(m@ =~= msg_unbound(at, st@, key@));
                    push_error(errors, m);
                    assert(texts(errors@) =~= head + seq![msg_unbound(at, st@, key@)]);
                },
                Some(v) => {
                    if !has_text(keys, v.as_str()) {
                        let mut m = String::new();
                        push_decimal(&mut m, at);
                        m.append(":0: Assertion failed: struct '");
                        m.append(st.as_str());
                        m.append("' is missing field '");
                        m.append(v.as_str());
                        m.append("'");
                        assert(m@ =~= msg_missing_field(at, st@, v@));
                        push_error(errors, m);
                        assert(texts(errors@) =~= head + seq![msg_missing_field(at, st@, v@)]);
                    } else {
                        assert(texts(errors@) =~= head + Seq::<Seq<char>>::empty());
                    }
                },
            }
        },
    }
}

/// The views of a list of assertion definitions.
pub open spec fn adefs_view(adefs: Seq<AssertionDef>) -> Seq<AssertionDefV> {
    adefs.map_values(|a: AssertionDef| a@)
}

fn check_asserts(s: &StructDef, all: &Vec<Definition>, adefs: &Vec<AssertionDef>, errors: &mut Vec<String>)
    requires
        s.asserts.len() > 0 ==> struct_copies_resolve(DefinitionV::Struct(s@), defs_view(all@)),
    ensures
        texts(final(errors)@) == texts(old(errors)@) + assert_errors(s@, defs_view(all@), adefs_view(adefs@)),
{
    let ghost head = texts(errors@);
    let ghost allv = defs_view(all@);
    let ghost av = s@.asserts;
    if s.asserts.len() == 0 {
        assert(av.len() == 0);
        assert(texts(errors@) =~= head + Seq::<Seq<char>>::empty());
        return;
    }
    let keys = struct_key_list(s, all);
    let mut scope: Vec<(String, String)> = Vec::new();
    let mut a: usize = 0;
    while a < s.asserts.len()
        invariant
            a <= s.asserts.len(),
            av == s@.asserts,
            allv == defs_view(all@),
            scope@ == Seq::<(String, String)>::empty(),
            texts(keys@) == struct_keys(s@, allv),
            texts(errors@) == head + asserts_errors(av.subrange(0, a as int), s@.name@, texts(keys@), allv, adefs_view(adefs@)),
        decreases s.asserts.len() - a,
    {
        assert(av.subrange(0, a + 1).drop_last() =~= av.subrange(0, a as int));
        assert(av.subrange(0, a + 1).last() == s.asserts@[a as int]@);
        let ghost before = texts(errors@);
        match &s.asserts[a] {
            AssertRef::Inline { body, .. } => {
                check_stmts(&s.name, body, &mut scope, None, &keys, all, errors);
            },
            AssertRef::Named { name, line } => {
                match find_assertion(adefs, name) {
                    None => {
                        let mut m = String::new();
                        push_decimal(&mut m, *line);
                        m.append(":0: Undefined assertion '");
                        m.append(name.as_str());
                        m.append("'");
                        assert(m@ =~= msg_undefined_assertion(*line, name@));
                        push_error(errors, m);
                        assert(texts(errors@) =~= before + seq![msg_undefined_assertion(*line, name@)]);
                    },
                    Some(ad) => {
                        check_stmts(&s.name, &ad.body, &mut scope, Some(*line), &keys, all, errors);
                    },
                }
            },
        }
        a = a + 1;
    }
    assert(av.subrange(0, s.asserts.len() as int) =~= av);
}

fn check_struct(
    s: &StructDef,
    all: &Vec<Definition>,
    names: &Vec<String>,
    namespaces: &Vec<String>,
    adefs: &Vec<AssertionDef>,
    errors: &mut Vec<String>,
)
    requires
        struct_validation_ends(s@, defs_view(all@), texts(names@)),
    ensures
        texts(final(errors)@) == texts(old(errors)@) + def_errors(DefinitionV::Struct(s@), defs_view(all@), texts(names@), texts(namespaces@), adefs_view(adefs@)),
{
    let ghost head = texts(errors@);
    let ghost allv = defs_view(all@);
    if s.asserts.len() > 0 {
        assert forall|i: int| 0 <= i < DefinitionV::Struct(s@)->Struct_0.copies.len() implies #[trigger] copy_resolves(DefinitionV::Struct(s@)->Struct_0.copies[i], allv) by {
            assert(DefinitionV::Struct(s@)->Struct_0 == s@);
            assert(resolved_in_validation(s@.copies[i], s@.asserts.len() > 0, allv, texts(names@)));
        };
    }
    check_tags(&s.tags, false, errors);
    check_copies(s, all, names, errors);
    check_asserts(s, all, adefs, errors);
    check_fields(&s.fields, all, names, namespaces, errors);
}

fn check_definitions(
    defs: &Vec<Definition>,
    all: &Vec<Definition>,
    names: &Vec<String>,
    namespaces: &Vec<String>,
    adefs: &Vec<AssertionDef>,
    errors: &mut Vec<String>,
)
    requires
        forall|i: int| 0 <= i < defs.len() ==> #[trigger] def_validation_ends(defs@[i]@, defs_view(all@), texts(names@)),
    ensures
        texts(final(errors)@) == texts(old(errors)@) + defs_errors(defs_view(defs@), defs_view(all@), texts(names@), texts(namespaces@), adefs_view(adefs@)),
{
    let ghost head = texts(errors@);
    let ghost dv = defs_view(defs@);
    let mut i: usize = 0;
    while i < defs.len()
        invariant
            i <= defs.len(),
            dv == defs_view(defs@),
            forall|j: int| 0 <= j < defs.len() ==> #[trigger] def_validation_ends(defs@[j]@, defs_view(all@), texts(names@)),
            texts(errors@) == head + defs_errors(dv.subrange(0, i as int), defs_view(all@), texts(names@), texts(namespaces@), adefs_view(adefs@)),
        decreases defs.len() - i,
    {
        assert(dv.subrange(0, i + 1).drop_last() =~= dv.subrange(0, i as int));
        assert(dv.subrange(0, i + 1).last() == defs@[i as int]@);
        assert(def_validation_ends(defs@[i as int]@, defs_view(all@), texts(names@)));
        match &defs[i] {
            Definition::Enum(e) => check_enum(e, errors),
            Definition::Variant(v) => check_variant(v, names, namespaces, errors),
            Definition::Struct(s) => check_struct(s, all, names, namespaces, adefs, errors),
            Definition::Protocol(p) => check_protocol(p, names, namespaces, errors),
            Definition::Const(c) => check_const(c, errors),
        }
        i = i + 1;
    }
    assert(dv.subrange(0, defs.len() as int) =~= dv);
}

/// Runs the imports: the names, namespaces and copied definitions they make
/// known, and the errors so far.
fn process_imports(file: &File, loads: &Vec<Result<File, String>>) -> (r: (Vec<String>, Vec<String>, Vec<Definition>, Vec<String>))
    requires
        loads@.len() == file@.imports.len(),
    ensures
        tracks(imports_state(file@, loads_view(loads@), file@.imports.len()), r.0@, r.1@, r.2@, r.3@),
{
    let ghost lv = loads_view(loads@);
    let mut errors: Vec<String> = Vec::new();
    check_duplicate_defs(&file.definitions, &mut errors);
    let mut names = local_type_names(&file.definitions);
    let mut namespaces: Vec<String> = Vec::new();
    let mut copied: Vec<Definition> = Vec::new();
    assert(texts(errors@) =~= imports_state(file@, lv, 0).errors);
    assert(texts(namespaces@) =~= Seq::<Seq<char>>::empty());
    assert(defs_view(copied@) =~= Seq::<DefinitionV>::empty());
    let mut i: usize = 0;
    while i < file.imports.len()
        invariant
            i <= file.imports.len(),
            loads@.len() == file@.imports.len(),
            lv == loads_view(loads@),
            tracks(imports_state(file@, lv, i as nat), names@, namespaces@, copied@, errors@),
        decreases file.imports.len() - i,
    {
        assert(file@.imports[i as int] == file.imports@[i as int]@);
        assert(lv[i as int] == load_view(loads@[i as int]));
        process_import(&file.imports[i], &loads[i], &mut names, &mut namespaces, &mut copied, &mut errors, Ghost(imports_state(file@, lv, i as nat)));
        i = i + 1;
    }
    (names, namespaces, copied, errors)
}

/// Appends copies of `src` to `dst`.
fn append_definitions(dst: &mut Vec<Definition>, src: &Vec<Definition>)
    ensures
        defs_view(final(dst)@) == defs_view(old(dst)@) + defs_view(src@),
{
    let ghost head = defs_view(dst@);
    let mut j: usize = 0;
    while j < src.len()
        invariant
            j <= src.len(),
            defs_view(dst@) == head + defs_view(src@).subrange(0, j as int),
        decreases src.len() - j,
    {
        let ghost db = dst@;
        dst.push(copy_definition(&src[j]));
        assert(defs_view(dst@) =~= defs_view(db).push(src@[j as int]@));
        j = j + 1;
        assert(defs_view(dst@) =~= head + defs_view(src@).subrange(0, j as int));
    }
    assert(defs_view(src@).subrange(0, src.len() as int) =~= defs_view(src@));
}

/// The definitions that copies are resolved against when validating `file`
/// (`validation_defs`): those its `^copy` imports bring in, then its own.
/// `loads[k]` is the parsed file of import `k`, or why it could not be loaded.
pub fn validation_definitions(file: &File, loads: &Vec<Result<File, String>>) -> (r: Vec<Definition>)
    requires
        loads@.len() == file@.imports.len(),
    ensures
        defs_view(r@) == validation_defs(file@, loads_view(loads@)),
{
    let (_names, _namespaces, mut copied, _errors) = process_imports(file, loads);
    append_definitions(&mut copied, &file.definitions);
    copied
}

/// Every semantic error of `file`, in the order `validation_errors` gives them.
/// `loads[k]` is the parsed file of import `k`, or why it could not be loaded;
/// reading and parsing the imports is the caller's part.
pub fn validate(file: &File, loads: &Vec<Result<File, String>>) -> (r: Vec<String>)
    requires
        loads@.len() == file@.imports.len(),
        validation_ends(file@, loads_view(loads@)),
    ensures
        texts(r@) == validation_errors(file@, loads_view(loads@)),
{
    let (names, namespaces, mut copied, mut errors) = process_imports(file, loads);
    append_definitions(&mut copied, &file.definitions);
    let all = copied;
    assert forall|i: int| 0 <= i < file.definitions.len() implies #[trigger] def_validation_ends(file.definitions@[i]@, defs_view(all@), texts(names@)) by {
        assert(file@.definitions[i] == file.definitions@[i]@);
    };
    check_definitions(&file.definitions, &all, &names, &namespaces, &file.assertion_defs, &mut errors);
    check_duplicate_assertions(&file.assertion_defs, &mut errors);
    errors
}

/// Whether validating `file` ends (`validation_ends`): false exactly when a copy
/// that validation resolves comes back, through nested copies, to a struct it
/// passed. `loads[k]` is what loading the file of import `k` gave.
pub fn validation_terminates(file: &File, loads: &Vec<Result<File, String>>) -> (r: bool)
    requires
        loads@.len() == file@.imports.len(),
    ensures
        r == validation_ends(file@, loads_view(loads@)),
{
    let ghost st = imports_state(file@, loads_view(loads@), file@.imports.len());
    let (names, _namespaces, mut copied, _errors) = process_imports(file, loads);
    append_definitions(&mut copied, &file.definitions);
    let all = copied;
    let ghost allv = defs_view(all@);
    assert(allv == st.copied + file@.definitions);
    assert(texts(names@) == st.names);
    let mut i: usize = 0;
    while i < file.definitions.len()
        invariant
            i <= file.definitions.len(),
            allv == defs_view(all@),
            allv == st.copied + file@.definitions,
            texts(names@) == st.names,
            st == imports_state(file@, loads_view(loads@), file@.imports.len()),
            forall|j: int| 0 <= j < i ==> #[trigger] def_validation_ends(file@.definitions[j], allv, texts(names@)),
        decreases file.definitions.len() - i,
    {
        assert(file@.definitions[i as int] == file.definitions@[i as int]@);
        match &file.definitions[i] {
            Definition::Struct(s) => {
                let has_asserts = s.asserts.len() > 0;
                let mut k: usize = 0;
                while k < s.copies.len()
                    invariant
                        k <= s.copies.len(),
                        i < file.definitions.len(),
                        file@.definitions[i as int] == DefinitionV::Struct(s@),
                        allv == defs_view(all@),
                        allv == st.copied + file@.definitions,
                        texts(names@) == st.names,
                        st == imports_state(file@, loads_view(loads@), file@.imports.len()),
                        has_asserts == (s@.asserts.len() > 0),
                        forall|j: int| 0 <= j < k && resolved_in_validation(s@.copies[j], has_asserts, allv, texts(names@))
                            ==> #[trigger] copy_resolves(s@.copies[j], allv),
                    decreases s.copies.len() - k,
                {
                    let c = &s.copies[k];
                    assert(s@.copies[k as int] == c@);
                    let base = match c {
                        StructSource::Named { name } => name,
                        StructSource::Exclude { base, .. } => base,
                    };
                    assert(base@ == source_base(c@)@);
                    let is_struct = match find_named(&all, base.as_str()) {
                        Some(Definition::Struct(_)) => true,
                        _ => false,
                    };
                    let needed = has_asserts || (has_text(&names, base.as_str()) && is_struct);
                    assert(needed == resolved_in_validation(c@, has_asserts, allv, texts(names@)));
                    if needed && resolve_fueled(c, all.as_slice(), all.len()).is_none() {
                        assert(!copy_resolves(s@.copies[k as int], allv));
                        assert(!struct_validation_ends(s@, allv, texts(names@)));
                        assert(!def_validation_ends(file@.definitions[i as int], allv, texts(names@)));
                        return false;
                    }
                    k = k + 1;
                }
                assert(def_validation_ends(file@.definitions[i as int], allv, texts(names@)));
            },
            _ => {},
        }
        i = i + 1;
    }
    true
}

} // verus!
