//! TypeScript output: one `export` per enum, variant, struct and constant.
use vstd::prelude::*;
use vstd::string::{StrSliceExecFns, StringExecFns};
use crate::ast::{
    ConstDef, Enforcer, Definition, EnumDef, Expr, ExprField, File, ImportKind, Primitive, StructDef,
    StructField, Tag, TypeRef, VariantDef,
};
use crate::compiler::{
    append_fields, find_struct, find_struct_def, copies_resolve, copy_resolves, struct_copies_resolve, def_name, defs_view, has_tag, name_of, names_contain, resolve_struct_source,
    resolved, strip_wst_ext, tags_have, without_wst_ext,
};
use crate::copy::copy_definition;
use crate::validator::lemma_push_contains;
use crate::text::{chars_of, first_dot, lemma_first_dot, push_char, same_text, str_eq, text_is};
use crate::view::{
    ConstDefV, DefinitionV, EnumCaseV, EnumDefV, ExprFieldV, ExprV, FileV, ImportKindV, ImportV,
    StructDefV, StructSourceV, StructFieldV, VariantCaseV, VariantDefV, expr_fields_view, expr_view,
};

verus! {

/// How struct fields without `#required` are written.
#[derive(Clone, Copy, PartialEq, Eq, Structural)]
pub enum OptionalMode {
    /// `field?: T | null`
    Implicit,
    /// `field: T | null`
    Explicit,
}

pub open spec fn primitive_ts(p: Primitive) -> Seq<char> {
    match p {
        Primitive::Int32 | Primitive::Int64 | Primitive::Uin64 | Primitive::Flt64 => "number"@,
        Primitive::Boolean => "boolean"@,
        Primitive::Str => "string"@,
    }
}

/// The TypeScript spelling of a type.
pub open spec fn type_ts(t: TypeRef) -> Seq<char>
    decreases t,
{
    match t {
        TypeRef::Primitive(p) => primitive_ts(p),
        TypeRef::Vec(inner) => type_ts(*inner) + "[]"@,
        TypeRef::KeyMap { key, value } => "Record<"@ + primitive_ts(key) + ", "@ + type_ts(*value) + ">"@,
        TypeRef::Named(name) => name@,
    }
}

fn primitive_to_ts(out: &mut String, p: Primitive)
    ensures
        final(out)@ == old(out)@ + primitive_ts(p),
{
    match p {
        Primitive::Int32 | Primitive::Int64 | Primitive::Uin64 | Primitive::Flt64 => out.append("number"),
        Primitive::Boolean => out.append("boolean"),
        Primitive::Str => out.append("string"),
    }
}

/// Writes the TypeScript spelling of `ty`.
fn type_to_ts(out: &mut String, ty: &TypeRef)
    ensures
        final(out)@ == old(out)@ + type_ts(*ty),
    decreases ty,
{
    match ty {
        TypeRef::Primitive(p) => primitive_to_ts(out, *p),
        TypeRef::Vec(inner) => {
            type_to_ts(out, inner);
            out.append("[]");
        },
        TypeRef::KeyMap { key, value } => {
            out.append("Record<");
            primitive_to_ts(out, *key);
            out.append(", ");
            type_to_ts(out, value);
            out.append(">");
        },
        TypeRef::Named(name) => out.append(name.as_str()),
    }
}

/// The JSDoc comment for `@deprecated` / `@banned` tags, if either is present.
pub open spec fn jsdoc(tags: Seq<Tag>) -> Option<Seq<char>> {
    let dep = tags_have(tags, "deprecated"@);
    let ban = tags_have(tags, "banned"@);
    if dep && ban {
        Some("/** @deprecated @banned */"@)
    } else if dep {
        Some("/** @deprecated */"@)
    } else if ban {
        Some("/** @banned */"@)
    } else {
        None
    }
}

/// The JSDoc line for `tags`, indented, or nothing.
pub open spec fn jsdoc_line(tags: Seq<Tag>) -> Seq<char> {
    match jsdoc(tags) {
        Some(doc) => "  "@ + doc + "\n"@,
        None => Seq::empty(),
    }
}

fn write_jsdoc_line(out: &mut String, tags: &Vec<Tag>)
    ensures
        final(out)@ == old(out)@ + jsdoc_line(tags@),
{
    let dep = has_tag(tags.as_slice(), "deprecated");
    let ban = has_tag(tags.as_slice(), "banned");
    let ghost before = out@;
    if dep || ban {
        out.append("  ");
        if dep && ban {
            out.append("/** @deprecated @banned */");
        } else if dep {
            out.append("/** @deprecated */");
        } else {
            out.append("/** @banned */");
        }
        out.append("\n");
        assert(out@ =~= before + jsdoc_line(tags@));
    }
}

/// A line `  Name = "Name",` for an enum case, after its JSDoc line.
pub open spec fn enum_case_ts(c: EnumCaseV) -> Seq<char> {
    jsdoc_line(c.tags) + "  "@ + c.name@ + " = \""@ + c.name@ + "\",\n"@
}

pub open spec fn enum_cases_ts(cs: Seq<EnumCaseV>) -> Seq<char>
    decreases cs.len(),
{
    if cs.len() == 0 { Seq::empty() } else { enum_cases_ts(cs.drop_last()) + enum_case_ts(cs.last()) }
}

/// `export enum Name { ... }` with one string-valued member per case.
pub open spec fn enum_ts(e: EnumDefV) -> Seq<char> {
    "export enum "@ + e.name@ + " {\n"@ + enum_cases_ts(e.cases) + "}\n\n"@
}

fn emit_enum(out: &mut String, def: &EnumDef)
    ensures
        final(out)@ == old(out)@ + enum_ts(def@),
{
    let ghost before = out@;
    out.append("export enum ");
    out.append(def.name.as_str());
    out.append(" {\n");
    let ghost head = out@;
    let ghost cases = def@.cases;
    let mut i: usize = 0;
    while i < def.cases.len()
        invariant
            i <= def.cases.len(),
            cases == def@.cases,
            out@ == head + enum_cases_ts(cases.subrange(0, i as int)),
        decreases def.cases.len() - i,
    {
        let case = &def.cases[i];
        let ghost mid = out@;
        write_jsdoc_line(out, &case.tags);
        out.append("  ");
        out.append(case.name.as_str());
        out.append(" = \"");
        out.append(case.name.as_str());
        out.append("\",\n");
        assert(cases.subrange(0, i + 1).drop_last() =~= cases.subrange(0, i as int));
        assert(out@ =~= mid + enum_case_ts(cases[i as int]));
        i = i + 1;
    }
    assert(cases.subrange(0, def.cases.len() as int) =~= cases);
    out.append("}\n\n");
    assert(out@ =~= before + enum_ts(def@));
}

/// The lines for a variant case: tag comments, then `  | { Name: type }`.
pub open spec fn variant_case_ts(c: VariantCaseV) -> Seq<char> {
    (if tags_have(c.tags, "deprecated"@) { "  // @deprecated\n"@ } else { Seq::empty() })
    + (if tags_have(c.tags, "banned"@) { "  // @banned\n"@ } else { Seq::empty() })
    + "  | { "@ + c.name@ + ": "@ + type_ts(c.ty) + " }\n"@
}

pub open spec fn variant_cases_ts(cs: Seq<VariantCaseV>) -> Seq<char>
    decreases cs.len(),
{
    if cs.len() == 0 { Seq::empty() } else { variant_cases_ts(cs.drop_last()) + variant_case_ts(cs.last()) }
}

/// `export type Name = | { Case: type } ... ;`
pub open spec fn variant_ts(v: VariantDefV) -> Seq<char> {
    "export type "@ + v.name@ + " =\n"@ + variant_cases_ts(v.cases) + ";\n\n"@
}

fn emit_variant(out: &mut String, def: &VariantDef)
    ensures
        final(out)@ == old(out)@ + variant_ts(def@),
{
    let ghost before = out@;
    out.append("export type ");
    out.append(def.name.as_str());
    out.append(" =\n");
    let ghost head = out@;
    let ghost cases = def@.cases;
    let mut i: usize = 0;
    while i < def.cases.len()
        invariant
            i <= def.cases.len(),
            cases == def@.cases,
            out@ == head + variant_cases_ts(cases.subrange(0, i as int)),
        decreases def.cases.len() - i,
    {
        let case = &def.cases[i];
        let ghost mid = out@;
        if has_tag(case.tags.as_slice(), "deprecated") {
            out.append("  // @deprecated\n");
        }
        let ghost mid2 = out@;
        if has_tag(case.tags.as_slice(), "banned") {
            out.append("  // @banned\n");
        }
        let ghost mid3 = out@;
        out.append("  | { ");
        out.append(case.name.as_str());
        out.append(": ");
        type_to_ts(out, &case.ty);
        out.append(" }\n");
        assert(cases.subrange(0, i + 1).drop_last() =~= cases.subrange(0, i as int));
        assert(out@ =~= mid + variant_case_ts(cases[i as int]));
        i = i + 1;
    }
    assert(cases.subrange(0, def.cases.len() as int) =~= cases);
    out.append(";\n\n");
    assert(out@ =~= before + variant_ts(def@));
}

/// Index of the last `.` in `s`, or -1.
pub open spec fn last_dot(s: Seq<char>) -> int
    decreases s.len(),
{
    if s.len() == 0 { -1 } else if s.last() == '.' { s.len() - 1 } else { last_dot(s.drop_last()) }
}

/// The output name of a field: the part after the last `.` (an enum qualifier is dropped).
pub open spec fn field_key(name: Seq<char>) -> Seq<char> {
    name.subrange(last_dot(name) + 1, name.len() as int)
}

proof fn lemma_last_dot_bounds(s: Seq<char>)
    ensures
        -1 <= last_dot(s) < s.len(),
    decreases s.len(),
{
    if s.len() > 0 {
        lemma_last_dot_bounds(s.drop_last());
    }
}

/// The output name of a field.
pub fn field_key_of(name: &str) -> (r: &str)
    ensures
        r@ == field_key(name@),
{
    let cs = chars_of(name);
    let n = cs.len();
    let mut i: usize = n;
    proof {
        assert(cs@.subrange(0, n as int) =~= cs@);
    }
    while i > 0 && cs[i - 1] != '.'
        invariant
            i <= n,
            n == cs.len(),
            cs@ == name@,
            last_dot(cs@) == last_dot(cs@.subrange(0, i as int)),
        decreases i,
    {
        assert(cs@.subrange(0, i as int).drop_last() =~= cs@.subrange(0, i - 1));
        i = i - 1;
    }
    proof {
        if i > 0 {
            assert(cs@.subrange(0, i as int).last() == '.');
        }
    }
    name.substring_char(i, n)
}

/// The line for a struct field (after its JSDoc line): `never` when banned,
/// `T | null` when nullable or optional, `?` on optional fields in implicit mode.
pub open spec fn field_ts(f: StructFieldV, mode: OptionalMode) -> Seq<char> {
    let key = field_key(f.name@);
    let ty = type_ts(f.ty);
    let line = if tags_have(f.tags, "banned"@) {
        "  "@ + key + ": never;\n"@
    } else if tags_have(f.tags, "required"@) && tags_have(f.tags, "nullable"@) {
        "  "@ + key + ": "@ + ty + " | null;\n"@
    } else if tags_have(f.tags, "required"@) {
        "  "@ + key + ": "@ + ty + ";\n"@
    } else if mode == OptionalMode::Explicit {
        "  "@ + key + ": "@ + ty + " | null;\n"@
    } else {
        "  "@ + key + "?: "@ + ty + " | null;\n"@
    };
    jsdoc_line(f.tags) + line
}

pub open spec fn fields_ts(fs: Seq<StructFieldV>, mode: OptionalMode) -> Seq<char>
    decreases fs.len(),
{
    if fs.len() == 0 { Seq::empty() } else { fields_ts(fs.drop_last(), mode) + field_ts(fs.last(), mode) }
}

fn emit_struct_field(out: &mut String, field: &StructField, mode: OptionalMode)
    ensures
        final(out)@ == old(out)@ + field_ts(field@, mode),
{
    let ghost before = out@;
    write_jsdoc_line(out, &field.tags);
    let required = has_tag(field.tags.as_slice(), "required");
    let banned = has_tag(field.tags.as_slice(), "banned");
    let nullable = has_tag(field.tags.as_slice(), "nullable");
    let key = field_key_of(field.name.as_str());
    out.append("  ");
    out.append(key);
    if banned {
        out.append(": never;\n");
    } else if required && nullable {
        out.append(": ");
        type_to_ts(out, &field.ty);
        out.append(" | null;\n");
    } else if required {
        out.append(": ");
        type_to_ts(out, &field.ty);
        out.append(";\n");
    } else if mode == OptionalMode::Explicit {
        out.append(": ");
        type_to_ts(out, &field.ty);
        out.append(" | null;\n");
    } else {
        out.append("?: ");
        type_to_ts(out, &field.ty);
        out.append(" | null;\n");
    }
    assert(out@ =~= before + field_ts(field@, mode));
}

fn emit_fields(out: &mut String, fields: &Vec<StructField>, mode: OptionalMode)
    ensures
        final(out)@ == old(out)@ + fields_ts(fields@.map_values(|f: StructField| f@), mode),
{
    let ghost head = out@;
    let ghost fs = fields@.map_values(|f: StructField| f@);
    let mut i: usize = 0;
    while i < fields.len()
        invariant
            i <= fields.len(),
            fs == fields@.map_values(|f: StructField| f@),
            out@ == head + fields_ts(fs.subrange(0, i as int), mode),
        decreases fields.len() - i,
    {
        emit_struct_field(out, &fields[i], mode);
        assert(fs.subrange(0, i + 1).drop_last() =~= fs.subrange(0, i as int));
        i = i + 1;
    }
    assert(fs.subrange(0, fields.len() as int) =~= fs);
}

/// The fields that the copy sources bring in, each written as a field line;
/// a source that names no known struct contributes nothing.
pub open spec fn copies_ts(copies: Seq<StructSourceV>, all: Seq<DefinitionV>, mode: OptionalMode) -> Seq<char>
    decreases copies.len(),
{
    if copies.len() == 0 {
        Seq::empty()
    } else {
        copies_ts(copies.drop_last(), all, mode) + match resolved(copies.last(), all) {
            Ok(fs) => fields_ts(fs, mode),
            Err(_) => Seq::empty(),
        }
    }
}

/// `export interface Name { ... }`: copied fields first, then the struct's own.
pub open spec fn struct_ts(s: StructDefV, mode: OptionalMode, all: Seq<DefinitionV>) -> Seq<char> {
    "export interface "@ + s.name@ + " {\n"@ + copies_ts(s.copies, all, mode) + fields_ts(s.fields, mode) + "}\n\n"@
}

fn emit_struct(out: &mut String, def: &StructDef, mode: OptionalMode, all_defs: &[Definition])
    requires
        forall|i: int| 0 <= i < def@.copies.len() ==> #[trigger] copy_resolves(def@.copies[i], defs_view(all_defs@)),
    ensures
        final(out)@ == old(out)@ + struct_ts(def@, mode, defs_view(all_defs@)),
{
    let ghost before = out@;
    let ghost all = defs_view(all_defs@);
    out.append("export interface ");
    out.append(def.name.as_str());
    out.append(" {\n");
    let ghost head = out@;
    let ghost copies = def@.copies;
    let mut i: usize = 0;
    while i < def.copies.len()
        invariant
            i <= def.copies.len(),
            copies == def@.copies,
            all == defs_view(all_defs@),
            forall|j: int| 0 <= j < copies.len() ==> #[trigger] copy_resolves(copies[j], all),
            out@ == head + copies_ts(copies.subrange(0, i as int), all, mode),
        decreases def.copies.len() - i,
    {
        assert(copy_resolves(copies[i as int], all));
        let ghost mid = out@;
        match resolve_struct_source(&def.copies[i], all_defs) {
            Ok(fields) => {
                emit_fields(out, &fields, mode);
            },
            Err(_) => {},
        }
        assert(copies.subrange(0, i + 1).drop_last() =~= copies.subrange(0, i as int));
        i = i + 1;
    }
    assert(copies.subrange(0, def.copies.len() as int) =~= copies);
    emit_fields(out, &def.fields, mode);
    out.append("}\n\n");
    assert(out@ =~= before + struct_ts(def@, mode, all));
}

/// `s` without its leading `0` digits.
pub open spec fn strip_leading_zeros(s: Seq<char>) -> Seq<char>
    decreases s.len(),
{
    if s.len() > 0 && s[0] == '0' { strip_leading_zeros(s.drop_first()) } else { s }
}

/// `s` without its trailing `0` digits.
pub open spec fn strip_trailing_zeros(s: Seq<char>) -> Seq<char>
    decreases s.len(),
{
    if s.len() > 0 && s.last() == '0' { strip_trailing_zeros(s.drop_last()) } else { s }
}

/// A numeral written in its shortest decimal form: no leading zeros in the whole
/// part (but at least `0`), no trailing zeros in the fraction, no `.` when the
/// fraction is zero, and no sign on zero.
pub open spec fn number_ts(text: Seq<char>) -> Seq<char> {
    let neg = text.len() > 0 && text[0] == '-';
    let body = if neg { text.drop_first() } else { text };
    let d = first_dot(body);
    let whole = strip_leading_zeros(body.subrange(0, d));
    let whole_digits = if whole.len() == 0 { seq!['0'] } else { whole };
    let frac = if d < body.len() { strip_trailing_zeros(body.subrange(d + 1, body.len() as int)) } else { Seq::empty() };
    let mag = if frac.len() == 0 { whole_digits } else { whole_digits + seq!['.'] + frac };
    if neg && !(whole.len() == 0 && frac.len() == 0) { seq!['-'] + mag } else { mag }
}

/// Appends `cs[a..b]`.
pub(crate) fn push_range(out: &mut String, cs: &Vec<char>, a: usize, b: usize)
    requires
        a <= b <= cs.len(),
    ensures
        final(out)@ == old(out)@ + cs@.subrange(a as int, b as int),
{
    let ghost before = out@;
    let mut i = a;
    while i < b
        invariant
            a <= i <= b,
            b <= cs.len(),
            out@ == before + cs@.subrange(a as int, i as int),
        decreases b - i,
    {
        push_char(out, cs[i]);
        i = i + 1;
        assert(out@ =~= before + cs@.subrange(a as int, i as int));
    }
}

/// The index of the first `.` in `cs` at or after `start`, or the length:
/// `first_dot` of `cs[start..]`, counted from `start`.
fn find_dot_from(cs: &Vec<char>, start: usize) -> (d: usize)
    requires
        start <= cs.len(),
    ensures
        start <= d <= cs.len(),
        first_dot(cs@.subrange(start as int, cs.len() as int)) == d - start,
{
    let n = cs.len();
    let ghost body = cs@.subrange(start as int, n as int);
    let mut d = start;
    assert(body.subrange(0, body.len() as int) =~= body);
    while d < n && cs[d] != '.'
        invariant
            start <= d <= n,
            n == cs.len(),
            body == cs@.subrange(start as int, n as int),
            first_dot(body) == (d - start) + first_dot(cs@.subrange(d as int, n as int)),
        decreases n - d,
    {
        assert(cs@.subrange(d as int, n as int).drop_first() =~= cs@.subrange(d + 1, n as int));
        d = d + 1;
    }
    if d < n {
        assert(cs@.subrange(d as int, n as int)[0] == '.');
    } else {
        assert(cs@.subrange(d as int, n as int).len() == 0);
    }
    d
}

/// The start of `cs[a..b]` without its leading zeros.
fn skip_leading_zeros(cs: &Vec<char>, a: usize, b: usize) -> (i: usize)
    requires
        a <= b <= cs.len(),
    ensures
        a <= i <= b,
        strip_leading_zeros(cs@.subrange(a as int, b as int)) == cs@.subrange(i as int, b as int),
{
    let mut i = a;
    while i < b && cs[i] == '0'
        invariant
            a <= i <= b,
            b <= cs.len(),
            strip_leading_zeros(cs@.subrange(a as int, b as int)) == strip_leading_zeros(cs@.subrange(i as int, b as int)),
        decreases b - i,
    {
        assert(cs@.subrange(i as int, b as int).drop_first() =~= cs@.subrange(i + 1, b as int));
        i = i + 1;
    }
    i
}

/// The end of `cs[a..b]` without its trailing zeros.
fn skip_trailing_zeros(cs: &Vec<char>, a: usize, b: usize) -> (j: usize)
    requires
        a <= b <= cs.len(),
    ensures
        a <= j <= b,
        strip_trailing_zeros(cs@.subrange(a as int, b as int)) == cs@.subrange(a as int, j as int),
{
    let mut j = b;
    while j > a && cs[j - 1] == '0'
        invariant
            a <= j <= b,
            b <= cs.len(),
            strip_trailing_zeros(cs@.subrange(a as int, b as int)) == strip_trailing_zeros(cs@.subrange(a as int, j as int)),
        decreases j,
    {
        assert(cs@.subrange(a as int, j as int).drop_last() =~= cs@.subrange(a as int, j - 1));
        j = j - 1;
    }
    j
}

/// Writes a numeral in its shortest decimal form (`number_ts`).
pub(crate) fn number_to_ts(out: &mut String, text: &String)
    ensures
        final(out)@ == old(out)@ + number_ts(text@),
{
    let ghost before = out@;
    let cs = chars_of(text.as_str());
    let n = cs.len();
    let neg = n > 0 && cs[0] == '-';
    let start: usize = if neg { 1 } else { 0 };
    let ghost body = if neg { cs@.drop_first() } else { cs@ };
    assert(body =~= cs@.subrange(start as int, n as int));
    let d = find_dot_from(&cs, start);
    assert(body.subrange(0, d - start) =~= cs@.subrange(start as int, d as int));
    let i = skip_leading_zeros(&cs, start, d);
    let j = if d < n {
        assert(body.subrange(d - start + 1, body.len() as int) =~= cs@.subrange(d + 1, n as int));
        skip_trailing_zeros(&cs, d + 1, n)
    } else {
        n
    };
    let ghost whole = cs@.subrange(i as int, d as int);
    let ghost frac = if d < n { cs@.subrange(d + 1, j as int) } else { Seq::<char>::empty() };
    assert(strip_leading_zeros(body.subrange(0, first_dot(body))) == whole);
    assert(d < n ==> strip_trailing_zeros(body.subrange(first_dot(body) + 1, body.len() as int)) == frac);
    let whole_empty = i == d;
    let frac_empty = d >= n || j == d + 1;
    if neg && !(whole_empty && frac_empty) {
        push_char(out, '-');
    }
    if whole_empty {
        push_char(out, '0');
    } else {
        push_range(out, &cs, i, d);
    }
    if !frac_empty {
        push_char(out, '.');
        push_range(out, &cs, d + 1, j);
    }
    assert(out@ =~= before + number_ts(text@));
}

/// How a character is written inside a TypeScript string literal.
pub open spec fn escape_char(c: char) -> Seq<char> {
    if c == '\\' {
        seq!['\\', '\\']
    } else if c == '"' {
        seq!['\\', '"']
    } else if c == '\n' {
        seq!['\\', 'n']
    } else {
        seq![c]
    }
}

/// `s` with backslashes, double quotes and newlines escaped.
pub open spec fn ts_escape(s: Seq<char>) -> Seq<char>
    decreases s.len(),
{
    if s.len() == 0 { Seq::empty() } else { ts_escape(s.drop_last()) + escape_char(s.last()) }
}

/// Two spaces per level.
pub open spec fn indent(depth: nat) -> Seq<char>
    decreases depth,
{
    if depth == 0 { Seq::empty() } else { indent((depth - 1) as nat) + seq![' ', ' '] }
}

/// The fields that the resolvable copy sources bring in, in order.
pub open spec fn copied_fields(copies: Seq<StructSourceV>, all: Seq<DefinitionV>) -> Seq<StructFieldV>
    decreases copies.len(),
{
    if copies.len() == 0 {
        Seq::empty()
    } else {
        copied_fields(copies.drop_last(), all) + match resolved(copies.last(), all) {
            Ok(fs) => fs,
            Err(_) => Seq::empty(),
        }
    }
}

/// All fields of the struct called `ty` among `all`, copied ones first; none
/// when no struct has that name.
pub open spec fn struct_fields_of(ty: Seq<char>, all: Seq<DefinitionV>) -> Seq<StructFieldV> {
    match find_struct(all, ty) {
        Some(sd) => copied_fields(sd.copies, all) + sd.fields,
        None => Seq::empty(),
    }
}

/// A field that a struct literal may leave out and that is then written as
/// `null`: an optional field (not `#required`) that is not `#banned` (whose
/// type `never` admits no value) and that the literal does not give.
pub open spec fn filled_with_null(f: StructFieldV, given: Seq<ExprFieldV>) -> bool {
    &&& !tags_have(f.tags, "required"@)
    &&& !tags_have(f.tags, "banned"@)
    &&& !given.map_values(|g: ExprFieldV| g.name@).contains(f.name@)
}

/// Lines `key: null,` for `fs`, inside a literal nested `depth` levels deep.
pub open spec fn null_lines(fs: Seq<StructFieldV>, depth: nat) -> Seq<char>
    decreases fs.len(),
{
    if fs.len() == 0 {
        Seq::empty()
    } else {
        null_lines(fs.drop_last(), depth) + indent(depth + 1) + field_key(fs.last().name@) + ": null,\n"@
    }
}

/// A constant expression in TypeScript, nested `depth` levels deep. A struct
/// literal lists its fields, then `null` for each optional field of its struct
/// (among `all`) that it leaves out.
pub open spec fn expr_ts(e: ExprV, depth: nat, all: Seq<DefinitionV>) -> Seq<char>
    decreases e, 1nat,
{
    match e {
        ExprV::Str { value } => seq!['"'] + ts_escape(value@) + seq!['"'],
        ExprV::Number { value } => number_ts(value@),
        ExprV::Bool { value } => if value { "true"@ } else { "false"@ },
        ExprV::Null => "null"@,
        ExprV::EnumCase { ty, case } => ty@ + seq!['.'] + case@,
        ExprV::Struct { ty, fields } => seq!['{', '\n'] + expr_fields_ts(fields, depth, all)
            + null_lines(struct_fields_of(ty@, all).filter(|f: StructFieldV| filled_with_null(f, fields)), depth)
            + indent(depth) + seq!['}'],
    }
}

/// The lines `key: value,` of a struct literal nested `depth` levels deep.
pub open spec fn expr_fields_ts(fs: Seq<ExprFieldV>, depth: nat, all: Seq<DefinitionV>) -> Seq<char>
    decreases fs, 0nat,
{
    if fs.len() == 0 {
        Seq::empty()
    } else {
        expr_fields_ts(fs.subrange(0, fs.len() - 1), depth, all) + indent(depth + 1) + field_key(fs[fs.len() - 1].name@)
            + seq![':', ' '] + expr_ts(fs[fs.len() - 1].value, depth + 1, all) + seq![',', '\n']
    }
}

fn write_escaped(out: &mut String, s: &String)
    ensures
        final(out)@ == old(out)@ + ts_escape(s@),
{
    let ghost before = out@;
    let cs = chars_of(s.as_str());
    let mut i: usize = 0;
    while i < cs.len()
        invariant
            i <= cs.len(),
            cs@ == s@,
            out@ == before + ts_escape(cs@.subrange(0, i as int)),
        decreases cs.len() - i,
    {
        let c = cs[i];
        if c == '\\' {
            push_char(out, '\\');
            push_char(out, '\\');
        } else if c == '"' {
            push_char(out, '\\');
            push_char(out, '"');
        } else if c == '\n' {
            push_char(out, '\\');
            push_char(out, 'n');
        } else {
            push_char(out, c);
        }
        assert(cs@.subrange(0, i + 1).drop_last() =~= cs@.subrange(0, i as int));
        i = i + 1;
        assert(out@ =~= before + ts_escape(cs@.subrange(0, i as int)));
    }
    assert(cs@.subrange(0, cs.len() as int) =~= cs@);
}

fn push_chars(out: &mut String, cs: &Vec<char>)
    ensures
        final(out)@ == old(out)@ + cs@,
{
    push_range(out, cs, 0, cs.len());
    assert(cs@.subrange(0, cs.len() as int) =~= cs@);
}

/// A struct definition that `find_struct` finds is one of the definitions.
proof fn lemma_found_struct_is_listed(defs: Seq<DefinitionV>, name: Seq<char>)
    requires
        find_struct(defs, name) is Some,
    ensures
        exists|i: int| 0 <= i < defs.len() && #[trigger] defs[i] == DefinitionV::Struct(find_struct(defs, name)->0),
    decreases defs.len(),
{
    if !(defs[0] is Struct && defs[0]->Struct_0.name@ == name) {
        lemma_found_struct_is_listed(defs.drop_first(), name);
        let i = choose|i: int| 0 <= i < defs.drop_first().len() && #[trigger] defs.drop_first()[i] == DefinitionV::Struct(find_struct(defs.drop_first(), name)->0);
        assert(defs[i + 1] == defs.drop_first()[i]);
    } else {
        assert(defs[0] == DefinitionV::Struct(find_struct(defs, name)->0));
    }
}

/// All fields of the struct called `ty` (`struct_fields_of`).
fn struct_fields_for(ty: &str, all: &[Definition]) -> (r: Vec<StructField>)
    requires
        copies_resolve(defs_view(all@), defs_view(all@)),
    ensures
        r@.map_values(|f: StructField| f@) == struct_fields_of(ty@, defs_view(all@)),
{
    let ghost allv = defs_view(all@);
    let mut out: Vec<StructField> = Vec::new();
    match find_struct_def(all, ty) {
        None => {
            assert(out@.map_values(|f: StructField| f@) =~= Seq::<StructFieldV>::empty());
            out
        },
        Some(sd) => {
            proof {
                lemma_found_struct_is_listed(allv, ty@);
                let i = choose|i: int| 0 <= i < allv.len() && #[trigger] allv[i] == DefinitionV::Struct(find_struct(allv, ty@)->0);
                assert(struct_copies_resolve(allv[i], allv));
                assert(allv[i]->Struct_0 == sd@);
                assert forall|j: int| 0 <= j < sd@.copies.len() implies #[trigger] copy_resolves(sd@.copies[j], allv) by {
                    assert(allv[i]->Struct_0.copies[j] == sd@.copies[j]);
                };
            }
            assert(out@.map_values(|f: StructField| f@) =~= copied_fields(sd@.copies.subrange(0, 0), allv));
            let mut k: usize = 0;
            while k < sd.copies.len()
                invariant
                    k <= sd.copies.len(),
                    allv == defs_view(all@),
                    forall|j: int| 0 <= j < sd@.copies.len() ==> #[trigger] copy_resolves(sd@.copies[j], allv),
                    out@.map_values(|f: StructField| f@) == copied_fields(sd@.copies.subrange(0, k as int), allv),
                decreases sd.copies.len() - k,
            {
                assert(sd@.copies.subrange(0, k + 1).drop_last() =~= sd@.copies.subrange(0, k as int));
                assert(sd@.copies.subrange(0, k + 1).last() == sd@.copies[k as int]);
                assert(sd@.copies[k as int] == sd.copies@[k as int]@);
                assert(copy_resolves(sd@.copies[k as int], allv));
                let ghost before = out@.map_values(|f: StructField| f@);
                match resolve_struct_source(&sd.copies[k], all) {
                    Ok(fs) => append_fields(&mut out, &fs),
                    Err(_) => {
                        assert(out@.map_values(|f: StructField| f@) =~= before + Seq::<StructFieldV>::empty());
                    },
                }
                k = k + 1;
            }
            assert(sd@.copies.subrange(0, sd.copies.len() as int) =~= sd@.copies);
            append_fields(&mut out, &sd.fields);
            out
        },
    }
}

/// Whether the literal fields `given` include one called `n`.
fn gives_field(given: &Vec<ExprField>, n: &String) -> (r: bool)
    ensures
        r == expr_fields_view(given@).map_values(|g: ExprFieldV| g.name@).contains(n@),
{
    let ghost gv = expr_fields_view(given@).map_values(|g: ExprFieldV| g.name@);
    let mut found = false;
    let mut j: usize = 0;
    while j < given.len()
        invariant
            j <= given.len(),
            gv == expr_fields_view(given@).map_values(|g: ExprFieldV| g.name@),
            found == gv.subrange(0, j as int).contains(n@),
        decreases given.len() - j,
    {
        assert(gv.subrange(0, j + 1) =~= gv.subrange(0, j as int).push(given@[j as int].name@));
        proof {
            lemma_push_contains(gv.subrange(0, j as int), given@[j as int].name@, n@);
        }
        found = found || same_text(&given[j].name, n);
        j = j + 1;
    }
    assert(gv.subrange(0, given.len() as int) =~= gv);
    found
}

/// Writes `key: null,` for each field of `fields` that the literal `given`
/// leaves out and that may be null (`filled_with_null`).
fn write_null_fields(out: &mut String, fields: &Vec<StructField>, given: &Vec<ExprField>, inner: &Vec<char>, Ghost(depth): Ghost<nat>)
    requires
        inner@ == indent(depth + 1),
    ensures
        final(out)@ == old(out)@ + null_lines(fields@.map_values(|f: StructField| f@).filter(
            |f: StructFieldV| filled_with_null(f, expr_fields_view(given@))), depth),
{
    let ghost head = out@;
    let ghost fv = fields@.map_values(|f: StructField| f@);
    let ghost gv = expr_fields_view(given@);
    let mut j: usize = 0;
    while j < fields.len()
        invariant
            j <= fields.len(),
            fv == fields@.map_values(|f: StructField| f@),
            gv == expr_fields_view(given@),
            inner@ == indent(depth + 1),
            out@ == head + null_lines(fv.subrange(0, j as int).filter(|f: StructFieldV| filled_with_null(f, gv)), depth),
        decreases fields.len() - j,
    {
        let ghost pre = fv.subrange(0, j + 1);
        assert(pre.drop_last() =~= fv.subrange(0, j as int));
        reveal_with_fuel(Seq::<StructFieldV>::filter, 1);
        let f = &fields[j];
        assert(pre.last() == f@);
        if !has_tag(f.tags.as_slice(), "required") && !has_tag(f.tags.as_slice(), "banned") && !gives_field(given, &f.name) {
            let ghost before = out@;
            let ghost prev = fv.subrange(0, j as int).filter(|f: StructFieldV| filled_with_null(f, gv));
            push_chars(out, inner);
            out.append(field_key_of(f.name.as_str()));
            out.append(": null,\n");
            assert(prev.push(f@).drop_last() =~= prev);
            assert(out@ =~= head + null_lines(prev.push(f@), depth));
        }
        j = j + 1;
    }
    assert(fv.subrange(0, fields.len() as int) =~= fv);
}

/// Writes a constant expression; `ind` is the indentation of its nesting level.
fn expr_to_ts(out: &mut String, expr: &Expr, ind: &Vec<char>, all: &[Definition], Ghost(depth): Ghost<nat>)
    requires
        ind@ == indent(depth),
        copies_resolve(defs_view(all@), defs_view(all@)),
    ensures
        final(out)@ == old(out)@ + expr_ts(expr@, depth, defs_view(all@)),
    decreases expr, 1nat,
{
    let ghost before = out@;
    match expr {
        Expr::Str { value } => {
            push_char(out, '"');
            write_escaped(out, value);
            push_char(out, '"');
        },
        Expr::Number { value } => number_to_ts(out, value),
        Expr::Bool { value } => {
            if *value {
                out.append("true");
            } else {
                out.append("false");
            }
        },
        Expr::Null => out.append("null"),
        Expr::EnumCase { ty, case } => {
            out.append(ty.as_str());
            push_char(out, '.');
            out.append(case.as_str());
        },
        Expr::Struct { ty, fields } => {
            push_char(out, '{');
            push_char(out, '\n');
            expr_fields_to_ts(out, fields, ind, all, Ghost(depth));
            let mut inner = ind.clone();
            inner.push(' ');
            inner.push(' ');
            assert(inner@ =~= indent(depth + 1));
            let declared = struct_fields_for(ty.as_str(), all);
            write_null_fields(out, &declared, fields, &inner, Ghost(depth));
            push_chars(out, ind);
            push_char(out, '}');
        },
    }
    assert(out@ =~= before + expr_ts(expr@, depth, defs_view(all@)));
}

fn expr_fields_to_ts(out: &mut String, fields: &Vec<ExprField>, ind: &Vec<char>, all: &[Definition], Ghost(depth): Ghost<nat>)
    requires
        ind@ == indent(depth),
        copies_resolve(defs_view(all@), defs_view(all@)),
    ensures
        final(out)@ == old(out)@ + expr_fields_ts(expr_fields_view(fields@), depth, defs_view(all@)),
    decreases fields, 0nat,
{
    let ghost head = out@;
    let ghost fs = expr_fields_view(fields@);
    let mut inner = ind.clone();
    inner.push(' ');
    inner.push(' ');
    assert(inner@ =~= indent(depth + 1));
    let mut i: usize = 0;
    while i < fields.len()
        invariant
            i <= fields.len(),
            fs == expr_fields_view(fields@),
            inner@ == indent(depth + 1),
            copies_resolve(defs_view(all@), defs_view(all@)),
            out@ == head + expr_fields_ts(fs.subrange(0, i as int), depth, defs_view(all@)),
        decreases fields.len() - i,
    {
        assert(decreases_to!(fields => fields@[i as int]));
        let f = &fields[i];
        let ghost mid = out@;
        push_chars(out, &inner);
        out.append(field_key_of(f.name.as_str()));
        push_char(out, ':');
        push_char(out, ' ');
        expr_to_ts(out, &f.value, &inner, all, Ghost(depth + 1));
        push_char(out, ',');
        push_char(out, '\n');
        assert(fs.subrange(0, i + 1).subrange(0, i as int) =~= fs.subrange(0, i as int));
        assert(out@ =~= head + expr_fields_ts(fs.subrange(0, i + 1), depth, defs_view(all@)));
        i = i + 1;
    }
    assert(fs.subrange(0, fields.len() as int) =~= fs);
}

/// `export const NAME: Type = value;` (the type is given for enum cases and struct literals).
pub open spec fn const_ts(c: ConstDefV, all: Seq<DefinitionV>) -> Seq<char> {
    match c.value {
        ExprV::EnumCase { ty, case } => "export const "@ + c.name@ + ": "@ + ty@ + " = "@ + ty@ + seq!['.'] + case@ + ";\n\n"@,
        ExprV::Struct { ty, .. } => "export const "@ + c.name@ + ": "@ + ty@ + " = "@ + expr_ts(c.value, 0, all) + ";\n\n"@,
        _ => "export const "@ + c.name@ + " = "@ + expr_ts(c.value, 0, all) + ";\n\n"@,
    }
}

fn emit_const(out: &mut String, def: &ConstDef, all: &[Definition])
    requires
        copies_resolve(defs_view(all@), defs_view(all@)),
    ensures
        final(out)@ == old(out)@ + const_ts(def@, defs_view(all@)),
{
    let ghost before = out@;
    let top: Vec<char> = Vec::new();
    assert(top@ =~= indent(0));
    out.append("export const ");
    out.append(def.name.as_str());
    match &def.value {
        Expr::EnumCase { ty, case } => {
            out.append(": ");
            out.append(ty.as_str());
            out.append(" = ");
            out.append(ty.as_str());
            push_char(out, '.');
            out.append(case.as_str());
        },
        Expr::Struct { ty, .. } => {
            out.append(": ");
            out.append(ty.as_str());
            out.append(" = ");
            expr_to_ts(out, &def.value, &top, all, Ghost(0));
        },
        _ => {
            out.append(" = ");
            expr_to_ts(out, &def.value, &top, all, Ghost(0));
        },
    }
    out.append(";\n\n");
    assert(out@ =~= before + const_ts(def@, defs_view(all@)));
}

/// The TypeScript for one definition; protocols produce nothing.
pub open spec fn def_ts(d: DefinitionV, mode: OptionalMode, all: Seq<DefinitionV>) -> Seq<char> {
    match d {
        DefinitionV::Enum(e) => enum_ts(e),
        DefinitionV::Variant(v) => variant_ts(v),
        DefinitionV::Struct(s) => struct_ts(s, mode, all),
        DefinitionV::Protocol(_) => Seq::empty(),
        DefinitionV::Const(c) => const_ts(c, all),
    }
}

pub open spec fn defs_ts(ds: Seq<DefinitionV>, mode: OptionalMode, all: Seq<DefinitionV>) -> Seq<char>
    decreases ds.len(),
{
    if ds.len() == 0 { Seq::empty() } else { defs_ts(ds.drop_last(), mode, all) + def_ts(ds.last(), mode, all) }
}

fn emit_definitions(out: &mut String, defs: &Vec<Definition>, mode: OptionalMode, all_defs: &[Definition])
    requires
        copies_resolve(defs_view(defs@), defs_view(all_defs@)),
        copies_resolve(defs_view(all_defs@), defs_view(all_defs@)),
    ensures
        final(out)@ == old(out)@ + defs_ts(defs_view(defs@), mode, defs_view(all_defs@)),
{
    let ghost head = out@;
    let ghost ds = defs_view(defs@);
    let ghost all = defs_view(all_defs@);
    let mut i: usize = 0;
    while i < defs.len()
        invariant
            i <= defs.len(),
            ds == defs_view(defs@),
            all == defs_view(all_defs@),
            copies_resolve(ds, all),
            copies_resolve(all, all),
            out@ == head + defs_ts(ds.subrange(0, i as int), mode, all),
        decreases defs.len() - i,
    {
        assert(struct_copies_resolve(ds[i as int], all));
        match &defs[i] {
            Definition::Enum(e) => emit_enum(out, e),
            Definition::Variant(v) => emit_variant(out, v),
            Definition::Struct(s) => {
                assert forall|j: int| 0 <= j < s@.copies.len() implies #[trigger] copy_resolves(s@.copies[j], all) by {
                    assert(ds[i as int]->Struct_0.copies[j] == s@.copies[j]);
                };
                emit_struct(out, s, mode, all_defs);
            },
            Definition::Protocol(_) => {},
            Definition::Const(c) => emit_const(out, c, all_defs),
        }
        assert(ds.subrange(0, i + 1).drop_last() =~= ds.subrange(0, i as int));
        i = i + 1;
    }
    assert(ds.subrange(0, defs.len() as int) =~= ds);
}

/// The mode that the first `!optional_mode=...;` enforcer sets: explicit only
/// for the value `explicit`; implicit when there is none.
pub open spec fn optional_mode(ens: Seq<Enforcer>) -> OptionalMode
    decreases ens.len(),
{
    if ens.len() == 0 {
        OptionalMode::Implicit
    } else if ens[0].key@ == "optional_mode"@ {
        if ens[0].value@ == "explicit"@ { OptionalMode::Explicit } else { OptionalMode::Implicit }
    } else {
        optional_mode(ens.drop_first())
    }
}

fn find_optional_mode(ens: &Vec<Enforcer>) -> (r: OptionalMode)
    ensures
        r == optional_mode(ens@),
{
    let mut i: usize = 0;
    proof {
        assert(ens@.subrange(0, ens@.len() as int) =~= ens@);
    }
    while i < ens.len()
        invariant
            i <= ens.len(),
            optional_mode(ens@) == optional_mode(ens@.subrange(i as int, ens@.len() as int)),
        decreases ens.len() - i,
    {
        assert(ens@.subrange(i as int, ens@.len() as int).drop_first() =~= ens@.subrange(i + 1, ens@.len() as int));
        if text_is(&ens[i].key, "optional_mode") {
            if text_is(&ens[i].value, "explicit") {
                return OptionalMode::Explicit;
            } else {
                return OptionalMode::Implicit;
            }
        }
        i = i + 1;
    }
    OptionalMode::Implicit
}

/// The names joined by `sep`.
pub open spec fn join_names(names: Seq<String>, sep: Seq<char>) -> Seq<char>
    decreases names.len(),
{
    if names.len() == 0 {
        Seq::empty()
    } else if names.len() == 1 {
        names[0]@
    } else {
        join_names(names.drop_last(), sep) + sep + names.last()@
    }
}

/// The `import type` line of a linked import; a `^copy` import has none.
pub open spec fn import_line(im: ImportV) -> Seq<char> {
    match im.kind {
        ImportKindV::Named { copy, types } => if copy {
            Seq::empty()
        } else {
            "import type { "@ + join_names(types, ", "@) + " } from \""@ + without_wst_ext(im.path@) + "\";\n"@
        },
        ImportKindV::Namespace { name } => "import type * as "@ + name@ + " from \""@ + without_wst_ext(im.path@) + "\";\n"@,
    }
}

pub open spec fn import_lines(ims: Seq<ImportV>) -> Seq<char>
    decreases ims.len(),
{
    if ims.len() == 0 { Seq::empty() } else { import_lines(ims.drop_last()) + import_line(ims.last()) }
}

/// Some import is linked (not `^copy`), so the output starts with import lines.
pub open spec fn links_imports(ims: Seq<ImportV>) -> bool {
    exists|i: int| 0 <= i < ims.len() && !(#[trigger] ims[i].kind matches ImportKindV::Named { copy: true, .. })
}

/// The type lists of the `^copy` imports, in order.
pub open spec fn copy_imports(ims: Seq<ImportV>) -> Seq<Seq<String>>
    decreases ims.len(),
{
    if ims.len() == 0 {
        Seq::empty()
    } else {
        match ims.last().kind {
            ImportKindV::Named { copy: true, types } => copy_imports(ims.drop_last()).push(types),
            _ => copy_imports(ims.drop_last()),
        }
    }
}

/// The definitions of `f` whose names are among `names`, in file order.
pub open spec fn picked(f: FileV, names: Seq<String>) -> Seq<DefinitionV> {
    f.definitions.filter(|d: DefinitionV| names_contain(names, name_of(d)@))
}

/// The definitions that the `^copy` imports bring in: for each, the named
/// definitions of its file (`files[k]` is the file of the k-th copy import).
pub open spec fn copied_defs(lists: Seq<Seq<String>>, files: Seq<FileV>) -> Seq<DefinitionV>
    decreases lists.len(),
{
    if lists.len() == 0 {
        Seq::empty()
    } else {
        copied_defs(lists.drop_last(), files) + picked(files[lists.len() - 1], lists.last())
    }
}

/// All definitions that copies can refer to: the copied ones, then the file's own.
pub open spec fn all_defs(file: FileV, copied: Seq<FileV>) -> Seq<DefinitionV> {
    copied_defs(copy_imports(file.imports), copied) + file.definitions
}

/// The TypeScript module for `file`, where `copied` holds the files of its
/// `^copy` imports: import lines (and a blank line after them), then the copied
/// definitions, then the file's own.
pub open spec fn ts_output(file: FileV, copied: Seq<FileV>) -> Seq<char> {
    let cd = copied_defs(copy_imports(file.imports), copied);
    let all = cd + file.definitions;
    let mode = optional_mode(file.enforcers);
    import_lines(file.imports) + (if links_imports(file.imports) { seq!['\n'] } else { Seq::empty() })
        + defs_ts(cd, mode, all) + defs_ts(file.definitions, mode, all)
}

/// The views of a list of files.
pub open spec fn files_view(fs: Seq<File>) -> Seq<FileV> {
    fs.map_values(|f: File| f@)
}

fn def_name_text(d: &Definition) -> (r: &String)
    ensures
        *r == name_of(d@),
{
    match d {
        Definition::Enum(e) => &e.name,
        Definition::Variant(v) => &v.name,
        Definition::Struct(s) => &s.name,
        Definition::Protocol(p) => &p.name,
        Definition::Const(c) => &c.name,
    }
}

fn list_contains(names: &Vec<String>, n: &String) -> (r: bool)
    ensures
        r == names_contain(names@, n@),
{
    let mut i: usize = 0;
    while i < names.len()
        invariant
            i <= names.len(),
            forall|j: int| 0 <= j < i ==> #[trigger] names@[j]@ != n@,
        decreases names.len() - i,
    {
        if same_text(&names[i], n) {
            return true;
        }
        i = i + 1;
    }
    false
}

/// All definitions that copies can refer to (`all_defs`): the definitions that
/// the `^copy` imports name from their files (`copied[k]` is the file of the
/// k-th copy import), then the file's own.
pub fn all_definitions(file: &File, copied: &Vec<File>) -> (r: Vec<Definition>)
    requires
        copied@.len() == copy_imports(file@.imports).len(),
    ensures
        defs_view(r@) == all_defs(file@, files_view(copied@)),
{
    let ghost lists = copy_imports(file@.imports);
    let ghost files = files_view(copied@);
    let mut out: Vec<Definition> = Vec::new();
    let mut k: usize = 0;
    let mut i: usize = 0;
    while i < file.imports.len()
        invariant
            i <= file.imports.len(),
            lists == copy_imports(file@.imports),
            files == files_view(copied@),
            copied@.len() == lists.len(),
            k == copy_imports(file@.imports.subrange(0, i as int)).len(),
            copy_imports(file@.imports.subrange(0, i as int)) == lists.subrange(0, k as int),
            defs_view(out@) == copied_defs(lists.subrange(0, k as int), files),
        decreases file.imports.len() - i,
    {
        proof {
            assert(file@.imports.subrange(0, i + 1).drop_last() =~= file@.imports.subrange(0, i as int));
            lemma_copy_imports_prefix(file@.imports, i + 1);
            lemma_copy_imports_prefix(file@.imports, i as int);
        }
        match &file.imports[i].kind {
            ImportKind::Named { copy, types } => {
                if *copy {
                    proof {
                        let pre = file@.imports.subrange(0, i + 1);
                        assert(pre.last() == file@.imports[i as int]);
                        assert(file@.imports[i as int].kind == ImportKindV::Named { copy: true, types: types@ });
                        assert(copy_imports(pre) == copy_imports(pre.drop_last()).push(types@));
                        assert(copy_imports(pre).len() == k + 1);
                        assert(copy_imports(pre) == lists.subrange(0, k + 1));
                        assert(lists.subrange(0, k + 1)[k as int] == types@);
                        assert(k + 1 <= lists.len());
                        assert(k + 1 <= copied.len());
                    }
                    let f = &copied[k];
                    let ghost before = defs_view(out@);
                    let ghost sel = picked(f@, types@);
                    let mut j: usize = 0;
                    while j < f.definitions.len()
                        invariant
                            j <= f.definitions.len(),
                            defs_view(out@) == before + defs_view(f.definitions@).subrange(0, j as int).filter(|d: DefinitionV| names_contain(types@, name_of(d)@)),
                        decreases f.definitions.len() - j,
                    {
                        let ghost dv = defs_view(f.definitions@);
                        assert(dv.subrange(0, j + 1).drop_last() =~= dv.subrange(0, j as int));
                        reveal_with_fuel(Seq::<DefinitionV>::filter, 1);
                        if list_contains(types, def_name_text(&f.definitions[j])) {
                            let ghost ob = out@;
                            out.push(copy_definition(&f.definitions[j]));
                            assert(defs_view(out@) =~= defs_view(ob).push(dv[j as int]));
                        }
                        j = j + 1;
                    }
                    assert(defs_view(f.definitions@).subrange(0, f.definitions.len() as int) =~= f@.definitions);
                    assert(files[k as int] == f@);
                    assert(lists.subrange(0, k + 1).drop_last() =~= lists.subrange(0, k as int));
                    assert(lists[k as int] == types@);
                    k = k + 1;
                }
            },
            ImportKind::Namespace { .. } => {},
        }
        i = i + 1;
    }
    assert(file@.imports.subrange(0, file.imports.len() as int) =~= file@.imports);
    assert(lists.subrange(0, k as int) =~= lists);
    let mut j: usize = 0;
    let ghost before = defs_view(out@);
    while j < file.definitions.len()
        invariant
            j <= file.definitions.len(),
            defs_view(out@) == before + defs_view(file.definitions@).subrange(0, j as int),
        decreases file.definitions.len() - j,
    {
        let ghost ob = out@;
        out.push(copy_definition(&file.definitions[j]));
        assert(defs_view(out@) =~= defs_view(ob).push(file.definitions@[j as int]@));
        j = j + 1;
        assert(defs_view(out@) =~= before + defs_view(file.definitions@).subrange(0, j as int));
    }
    assert(defs_view(file.definitions@).subrange(0, file.definitions.len() as int) =~= file@.definitions);
    out
}

/// The copy imports of a prefix of the imports are a prefix of all copy imports.
proof fn lemma_copy_imports_prefix(ims: Seq<ImportV>, m: int)
    requires
        0 <= m <= ims.len(),
    ensures
        copy_imports(ims.subrange(0, m)).len() <= copy_imports(ims).len(),
        copy_imports(ims.subrange(0, m)) == copy_imports(ims).subrange(0, copy_imports(ims.subrange(0, m)).len() as int),
    decreases ims.len(),
{
    let c = copy_imports(ims);
    if m == ims.len() {
        assert(ims.subrange(0, m) =~= ims);
        assert(c.subrange(0, c.len() as int) =~= c);
    } else {
        assert(ims.drop_last().subrange(0, m) =~= ims.subrange(0, m));
        lemma_copy_imports_prefix(ims.drop_last(), m);
        let d = copy_imports(ims.drop_last());
        let p = copy_imports(ims.subrange(0, m));
        if ims.last().kind is Named && ims.last().kind->Named_copy {
            let types = ims.last().kind->Named_types;
            assert(c == d.push(types));
            assert(d.push(types).subrange(0, p.len() as int) =~= d.subrange(0, p.len() as int));
        } else {
            assert(c == d);
        }
    }
}

pub proof fn lemma_defs_ts_append(a: Seq<DefinitionV>, b: Seq<DefinitionV>, mode: OptionalMode, all: Seq<DefinitionV>)
    ensures
        defs_ts(a + b, mode, all) == defs_ts(a, mode, all) + defs_ts(b, mode, all),
    decreases b.len(),
{
    if b.len() == 0 {
        assert(a + b =~= a);
        assert(defs_ts(a, mode, all) + Seq::<char>::empty() =~= defs_ts(a, mode, all));
    } else {
        assert((a + b).drop_last() =~= a + b.drop_last());
        lemma_defs_ts_append(a, b.drop_last(), mode, all);
        assert(defs_ts(a + b, mode, all) =~= defs_ts(a, mode, all) + defs_ts(b, mode, all));
    }
}

fn write_joined(out: &mut String, names: &Vec<String>)
    ensures
        final(out)@ == old(out)@ + join_names(names@, ", "@),
{
    let ghost head = out@;
    let mut i: usize = 0;
    while i < names.len()
        invariant
            i <= names.len(),
            out@ == head + join_names(names@.subrange(0, i as int), ", "@),
        decreases names.len() - i,
    {
        if i > 0 {
            out.append(", ");
        }
        out.append(names[i].as_str());
        assert(names@.subrange(0, i + 1).drop_last() =~= names@.subrange(0, i as int));
        i = i + 1;
        assert(out@ =~= head + join_names(names@.subrange(0, i as int), ", "@));
    }
    assert(names@.subrange(0, names.len() as int) =~= names@);
}

/// The TypeScript module for `file` (`ts_output`). `copied` holds the parsed
/// files of its `^copy` imports, in order; reading them is the caller's part.
pub fn compile(file: &File, copied: &Vec<File>) -> (r: String)
    requires
        copied@.len() == copy_imports(file@.imports).len(),
        copies_resolve(all_defs(file@, files_view(copied@)), all_defs(file@, files_view(copied@))),
    ensures
        r@ == ts_output(file@, files_view(copied@)),
{
    let mode = find_optional_mode(&file.enforcers);
    let mut out = String::new();
    let ghost ims = file@.imports;
    let mut has_import_lines = false;
    let mut i: usize = 0;
    while i < file.imports.len()
        invariant
            i <= file.imports.len(),
            ims == file@.imports,
            out@ == import_lines(ims.subrange(0, i as int)),
            has_import_lines == links_imports(ims.subrange(0, i as int)),
        decreases file.imports.len() - i,
    {
        let import = &file.imports[i];
        let ghost before = out@;
        match &import.kind {
            ImportKind::Named { copy, types } => {
                if !*copy {
                    out.append("import type { ");
                    write_joined(&mut out, types);
                    out.append(" } from \"");
                    out.append(strip_wst_ext(import.path.as_str()));
                    out.append("\";\n");
                    has_import_lines = true;
                }
            },
            ImportKind::Namespace { name } => {
                out.append("import type * as ");
                out.append(name.as_str());
                out.append(" from \"");
                out.append(strip_wst_ext(import.path.as_str()));
                out.append("\";\n");
                has_import_lines = true;
            },
        }
        proof {
            let pre = ims.subrange(0, i + 1);
            assert(pre.drop_last() =~= ims.subrange(0, i as int));
            assert(pre.last() == ims[i as int]);
            assert(out@ =~= before + import_line(ims[i as int]));
            if links_imports(pre) {
                let w = choose|j: int| 0 <= j < pre.len() && !(#[trigger] pre[j].kind matches ImportKindV::Named { copy: true, .. });
                if w < i {
                    assert(ims.subrange(0, i as int)[w] == pre[w]);
                }
            }
            if links_imports(ims.subrange(0, i as int)) {
                let w = choose|j: int| 0 <= j < i && !(#[trigger] ims.subrange(0, i as int)[j].kind matches ImportKindV::Named { copy: true, .. });
                assert(pre[w] == ims.subrange(0, i as int)[w]);
            }
            if !(ims[i as int].kind matches ImportKindV::Named { copy: true, .. }) {
                assert(pre[i as int] == ims[i as int]);
            }
        }
        i = i + 1;
    }
    assert(ims.subrange(0, file.imports.len() as int) =~= ims);
    if has_import_lines {
        push_char(&mut out, '\n');
    }
    let all = all_definitions(file, copied);
    let ghost cd = copied_defs(copy_imports(file@.imports), files_view(copied@));
    proof {
        lemma_defs_ts_append(cd, file@.definitions, mode, defs_view(all@));
    }
    emit_definitions(&mut out, &all, mode, all.as_slice());
    out
}

} // verus!
