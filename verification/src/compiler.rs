//! Shared helpers of the validator and the code generators: definition names,
//! tags, import paths and the fields that a `copy` brings in.
use vstd::prelude::*;
use crate::ast::{Definition, StructDef, StructField, StructSource, Tag};
use vstd::string::StrSliceExecFns;
use crate::copy::{copy_field, copy_fields};
use crate::text::{copy_string, same_text, str_eq};
use crate::view::{DefinitionV, StructDefV, StructFieldV, StructSourceV};

pub mod typescript;

verus! {

/// The name of a definition.
pub open spec fn name_of(d: DefinitionV) -> String {
    match d {
        DefinitionV::Enum(e) => e.name,
        DefinitionV::Variant(v) => v.name,
        DefinitionV::Struct(s) => s.name,
        DefinitionV::Protocol(p) => p.name,
        DefinitionV::Const(c) => c.name,
    }
}

/// The views of a list of definitions.
pub open spec fn defs_view(defs: Seq<Definition>) -> Seq<DefinitionV> {
    defs.map_values(|d: Definition| d@)
}

/// The name of a definition.
pub fn def_name(def: &Definition) -> (r: &str)
    ensures
        r@ == name_of(def@)@,
{
    match def {
        Definition::Enum(e) => e.name.as_str(),
        Definition::Variant(v) => v.name.as_str(),
        Definition::Struct(s) => s.name.as_str(),
        Definition::Protocol(p) => p.name.as_str(),
        Definition::Const(c) => c.name.as_str(),
    }
}

/// Some tag without a namespace is called `name`.
pub open spec fn tags_have(tags: Seq<Tag>, name: Seq<char>) -> bool {
    exists|i: int| 0 <= i < tags.len() && tags[i].namespace is None && #[trigger] tags[i].name@ == name
}

/// Whether a built-in (namespace-free) tag called `name` is among `tags`.
pub fn has_tag(tags: &[Tag], name: &str) -> (r: bool)
    ensures
        r == tags_have(tags@, name@),
{
    let mut i: usize = 0;
    while i < tags.len()
        invariant
            i <= tags.len(),
            forall|j: int| 0 <= j < i ==> !(tags@[j].namespace is None && #[trigger] tags@[j].name@ == name@),
        decreases tags.len() - i,
    {
        if tags[i].namespace.is_none() && str_eq(tags[i].name.as_str(), name) {
            assert(tags@[i as int].namespace is None && tags@[i as int].name@ == name@);
            return true;
        }
        i = i + 1;
    }
    false
}

/// `path` without a trailing `.wst`.
pub open spec fn without_wst_ext(path: Seq<char>) -> Seq<char> {
    if path.len() >= 4 && path.subrange(path.len() - 4, path.len() as int) == ".wst"@ {
        path.subrange(0, path.len() - 4)
    } else {
        path
    }
}

/// Removes a trailing `.wst` from an import path.
pub fn strip_wst_ext(path: &str) -> (r: &str)
    ensures
        r@ == without_wst_ext(path@),
{
    let n = path.unicode_len();
    if n >= 4 {
        let suffix = path.substring_char(n - 4, n);
        if str_eq(suffix, ".wst") {
            return path.substring_char(0, n - 4);
        }
    }
    path
}

/// `path` without a leading `./`.
pub open spec fn without_dot_slash(path: Seq<char>) -> Seq<char> {
    if path.len() >= 2 && path.subrange(0, 2) == "./"@ {
        path.subrange(2, path.len() as int)
    } else {
        path
    }
}

/// Removes a leading `./` from an import path, which is then taken relative to
/// the importing file's directory.
pub fn strip_dot_slash(path: &str) -> (r: &str)
    ensures
        r@ == without_dot_slash(path@),
{
    let n = path.unicode_len();
    if n >= 2 {
        let prefix = path.substring_char(0, 2);
        if str_eq(prefix, "./") {
            return path.substring_char(2, n);
        }
    }
    path
}

/// The struct named in a copy source.
pub open spec fn source_base(s: StructSourceV) -> String {
    match s {
        StructSourceV::Named { name } => name,
        StructSourceV::Exclude { base, .. } => base,
    }
}

/// The first struct definition called `name`.
pub open spec fn find_struct(defs: Seq<DefinitionV>, name: Seq<char>) -> Option<StructDefV>
    decreases defs.len(),
{
    if defs.len() == 0 {
        None
    } else if defs[0] is Struct && defs[0]->Struct_0.name@ == name {
        Some(defs[0]->Struct_0)
    } else {
        find_struct(defs.drop_first(), name)
    }
}

/// Some string of `names` spells `n`.
pub open spec fn names_contain(names: Seq<String>, n: Seq<char>) -> bool {
    exists|i: int| 0 <= i < names.len() && #[trigger] names[i]@ == n
}

/// The fields that remain after removing those named in `exclude`.
pub open spec fn without_names(fields: Seq<StructFieldV>, exclude: Seq<String>) -> Seq<StructFieldV> {
    fields.filter(|f: StructFieldV| !names_contain(exclude, f.name@))
}

/// Where resolving a copy source fails: no struct has this name.
#[derive(Debug, Clone, PartialEq)]
pub struct UnresolvedStruct {
    pub name: String,
}

/// The fields a copy source brings in, when `fuel` bounds the depth of nested
/// copies; `None` when the bound is reached.
pub open spec fn resolve_fields(source: StructSourceV, defs: Seq<DefinitionV>, fuel: nat) -> Option<Result<Seq<StructFieldV>, String>>
    decreases fuel, 0nat,
{
    let base = source_base(source);
    match find_struct(defs, base@) {
        None => Some(Err(base)),
        Some(sd) => if fuel == 0 {
            None
        } else {
            match resolve_all(sd.copies, defs, (fuel - 1) as nat) {
                None => None,
                Some(Err(e)) => Some(Err(e)),
                Some(Ok(copied)) => {
                    let fields = copied + sd.fields;
                    match source {
                        StructSourceV::Exclude { exclude, .. } => Some(Ok(without_names(fields, exclude))),
                        StructSourceV::Named { .. } => Some(Ok(fields)),
                    }
                },
            }
        },
    }
}

/// The fields that the copy sources `copies` bring in, in order.
pub open spec fn resolve_all(copies: Seq<StructSourceV>, defs: Seq<DefinitionV>, fuel: nat) -> Option<Result<Seq<StructFieldV>, String>>
    decreases fuel, copies.len() + 1,
{
    if copies.len() == 0 {
        Some(Ok(Seq::empty()))
    } else {
        match resolve_all(copies.drop_last(), defs, fuel) {
            None => None,
            Some(Err(e)) => Some(Err(e)),
            Some(Ok(prefix)) => match resolve_fields(copies.last(), defs, fuel) {
                None => None,
                Some(Err(e)) => Some(Err(e)),
                Some(Ok(more)) => Some(Ok(prefix + more)),
            },
        }
    }
}

/// Resolving `source` over `defs` ends: no chain of nested copies comes back to
/// a struct it passed (such a chain would never end). A chain that never repeats
/// a struct is no deeper than the number of definitions, which bounds the depth.
pub open spec fn copy_resolves(source: StructSourceV, defs: Seq<DefinitionV>) -> bool {
    resolve_fields(source, defs, defs.len()) is Some
}

/// The fields that resolving `source` over `defs` gives, or the struct it misses.
pub open spec fn resolved(source: StructSourceV, defs: Seq<DefinitionV>) -> Result<Seq<StructFieldV>, String> {
    resolve_fields(source, defs, defs.len())->0
}

/// Like `agrees`, for the fields that resolving gives.
pub open spec fn fields_agree(r: Result<Vec<StructField>, UnresolvedStruct>, s: Result<Seq<StructFieldV>, String>) -> bool {
    match s {
        Ok(fields) => r is Ok && r->Ok_0@.map_values(|f: StructField| f@) == fields,
        Err(name) => r is Err && r->Err_0.name == name,
    }
}

pub(crate) fn find_struct_def<'a>(defs: &'a [Definition], name: &str) -> (r: Option<&'a StructDef>)
    ensures
        match find_struct(defs_view(defs@), name@) {
            Some(sd) => r is Some && r->0@ == sd,
            None => r is None,
        },
{
    let ghost dv = defs_view(defs@);
    assert(dv.subrange(0, dv.len() as int) =~= dv);
    let mut i: usize = 0;
    while i < defs.len()
        invariant
            i <= defs.len(),
            dv == defs_view(defs@),
            find_struct(dv, name@) == find_struct(dv.subrange(i as int, dv.len() as int), name@),
        decreases defs.len() - i,
    {
        let ghost rest = dv.subrange(i as int, dv.len() as int);
        assert(rest.drop_first() =~= dv.subrange(i + 1, dv.len() as int));
        match &defs[i] {
            Definition::Struct(s) => {
                if str_eq(s.name.as_str(), name) {
                    return Some(s);
                }
            },
            _ => {},
        }
        i = i + 1;
    }
    None
}

fn names_contain_exec(names: &Vec<String>, n: &String) -> (r: bool)
    ensures
        r == names_contain(names@, n@),
{
    let mut i: usize = 0;
    while i < names.len()
        invariant
            i <= names.len(),
            forall|j: int| 0 <= j < i ==> #[trigger] names@[j]@ != n@,
        decreases names.len() - i,
    {
        if same_text(&names[i], n) {
            return true;
        }
        i = i + 1;
    }
    false
}

/// Appends copies of `src` to `dst`.
pub(crate) fn append_fields(dst: &mut Vec<StructField>, src: &Vec<StructField>)
    ensures
        final(dst)@.map_values(|f: StructField| f@) == old(dst)@.map_values(|f: StructField| f@) + src@.map_values(|f: StructField| f@),
{
    let ghost before = dst@;
    let mut j: usize = 0;
    while j < src.len()
        invariant
            j <= src.len(),
            dst@.len() == before.len() + j,
            forall|i: int| 0 <= i < before.len() ==> dst@[i] == before[i],
            forall|i: int| 0 <= i < j ==> dst@[before.len() + i]@ == src@[i]@,
        decreases src.len() - j,
    {
        dst.push(copy_field(&src[j]));
        j = j + 1;
    }
    assert(dst@.map_values(|f: StructField| f@) =~= before.map_values(|f: StructField| f@) + src@.map_values(|f: StructField| f@));
}

/// Resolves `source` allowing `fuel` levels of nested copies; `None` when the
/// bound is reached.
pub(crate) fn resolve_fueled(source: &StructSource, defs: &[Definition], fuel: usize) -> (r: Option<Result<Vec<StructField>, UnresolvedStruct>>)
    ensures
        match resolve_fields(source@, defs_view(defs@), fuel as nat) {
            None => r is None,
            Some(x) => r is Some && fields_agree(r->0, x),
        },
    decreases fuel,
{
    let ghost dv = defs_view(defs@);
    let base_name = match source {
        StructSource::Named { name } => name,
        StructSource::Exclude { base, .. } => base,
    };
    let struct_def = match find_struct_def(defs, base_name.as_str()) {
        Some(s) => s,
        None => return Some(Err(UnresolvedStruct { name: copy_string(base_name) })),
    };
    if fuel == 0 {
        return None;
    }
    let ghost sd = struct_def@;
    let mut fields: Vec<StructField> = Vec::new();
    assert(sd.copies.subrange(0, 0) =~= Seq::<StructSourceV>::empty());
    assert(fields@.map_values(|f: StructField| f@) =~= Seq::<StructFieldV>::empty());
    let mut k: usize = 0;
    while k < struct_def.copies.len()
        invariant
            k <= struct_def.copies.len(),
            sd == struct_def@,
            fuel > 0,
            dv == defs_view(defs@),
            resolve_all(sd.copies.subrange(0, k as int), dv, (fuel - 1) as nat) == Some(Ok::<Seq<StructFieldV>, String>(fields@.map_values(|f: StructField| f@))),
            find_struct(dv, source_base(source@)@) == Some(sd),
        decreases struct_def.copies.len() - k,
    {
        assert(sd.copies.subrange(0, k + 1).drop_last() =~= sd.copies.subrange(0, k as int));
        assert(sd.copies.subrange(0, k + 1).last() == sd.copies[k as int]);
        let more = match resolve_fueled(&struct_def.copies[k], defs, fuel - 1) {
            None => {
                proof {
                    lemma_resolve_all_prefix_stops(sd.copies, dv, (fuel - 1) as nat, k + 1);
                }
                return None;
            },
            Some(Ok(m)) => m,
            Some(Err(e)) => {
                proof {
                    lemma_resolve_all_prefix_stops(sd.copies, dv, (fuel - 1) as nat, k + 1);
                }
                return Some(Err(e));
            },
        };
        append_fields(&mut fields, &more);
        k = k + 1;
    }
    assert(sd.copies.subrange(0, struct_def.copies.len() as int) =~= sd.copies);
    append_fields(&mut fields, &struct_def.fields);
    match source {
        StructSource::Exclude { exclude, .. } => {
            let ghost all = fields@.map_values(|f: StructField| f@);
            let mut kept: Vec<StructField> = Vec::new();
            let mut i: usize = 0;
            while i < fields.len()
                invariant
                    i <= fields.len(),
                    all == fields@.map_values(|f: StructField| f@),
                    kept@.map_values(|f: StructField| f@) == without_names(all.subrange(0, i as int), exclude@),
                decreases fields.len() - i,
            {
                assert(all.subrange(0, i + 1).drop_last() =~= all.subrange(0, i as int));
                reveal_with_fuel(Seq::<StructFieldV>::filter, 1);
                if !names_contain_exec(exclude, &fields[i].name) {
                    let ghost kb = kept@;
                    kept.push(copy_field(&fields[i]));
                    assert(kept@.map_values(|f: StructField| f@) =~= kb.map_values(|f: StructField| f@).push(all[i as int]));
                }
                i = i + 1;
            }
            assert(all.subrange(0, fields.len() as int) =~= all);
            Some(Ok(kept))
        },
        StructSource::Named { .. } => Some(Ok(fields)),
    }
}

/// Once a prefix of the copies fails or reaches the bound, so do all of them.
proof fn lemma_resolve_all_prefix_stops(copies: Seq<StructSourceV>, defs: Seq<DefinitionV>, fuel: nat, k: int)
    requires
        0 < k <= copies.len(),
        !(resolve_all(copies.subrange(0, k), defs, fuel) matches Some(Ok(_))),
    ensures
        resolve_all(copies, defs, fuel) == resolve_all(copies.subrange(0, k), defs, fuel),
    decreases copies.len(),
{
    if k < copies.len() {
        assert(copies.drop_last().subrange(0, k) =~= copies.subrange(0, k));
        lemma_resolve_all_prefix_stops(copies.drop_last(), defs, fuel, k);
    } else {
        assert(copies.subrange(0, k) =~= copies);
    }
}

/// The fields that a copy source brings in: all fields of the named struct (those
/// of its own copies first, then its own), minus any that `@exclude` lists.
/// Only structs in `defs` can be resolved.
pub fn resolve_struct_source(source: &StructSource, defs: &[Definition]) -> (r: Result<Vec<StructField>, UnresolvedStruct>)
    requires
        copy_resolves(source@, defs_view(defs@)),
    ensures
        fields_agree(r, resolved(source@, defs_view(defs@))),
{
    match resolve_fueled(source, defs, defs.len()) {
        Some(r) => r,
        None => Err(UnresolvedStruct { name: String::new() }),
    }
}

/// Every copy source of the struct `d` (if it is one) resolves over `all`.
pub open spec fn struct_copies_resolve(d: DefinitionV, all: Seq<DefinitionV>) -> bool {
    d is Struct ==> forall|i: int| 0 <= i < d->Struct_0.copies.len() ==> #[trigger] copy_resolves(d->Struct_0.copies[i], all)
}

/// Every copy source of every struct among `ds` resolves over `all`.
pub open spec fn copies_resolve(ds: Seq<DefinitionV>, all: Seq<DefinitionV>) -> bool {
    forall|i: int| 0 <= i < ds.len() ==> #[trigger] struct_copies_resolve(ds[i], all)
}

/// Whether every copy of every struct among `ds` resolves over `all`: false
/// exactly when some chain of nested copies comes back to a struct it passed.
pub fn copies_terminate(ds: &[Definition], all: &[Definition]) -> (r: bool)
    ensures
        r == copies_resolve(defs_view(ds@), defs_view(all@)),
{
    let ghost dv = defs_view(ds@);
    let mut i: usize = 0;
    while i < ds.len()
        invariant
            i <= ds.len(),
            dv == defs_view(ds@),
            forall|j: int| 0 <= j < i ==> #[trigger] struct_copies_resolve(dv[j], defs_view(all@)),
        decreases ds.len() - i,
    {
        match &ds[i] {
            Definition::Struct(s) => {
                let mut k: usize = 0;
                while k < s.copies.len()
                    invariant
                        k <= s.copies.len(),
                        i < ds.len(),
                        dv == defs_view(ds@),
                        dv[i as int] == DefinitionV::Struct(s@),
                        forall|j: int| 0 <= j < k ==> #[trigger] copy_resolves(s@.copies[j], defs_view(all@)),
                    decreases s.copies.len() - k,
                {
                    if resolve_fueled(&s.copies[k], all, all.len()).is_none() {
                        assert(!copy_resolves(s@.copies[k as int], defs_view(all@)));
                        assert(dv[i as int]->Struct_0.copies[k as int] == s@.copies[k as int]);
                        assert(!struct_copies_resolve(dv[i as int], defs_view(all@)));
                        return false;
                    }
                    k = k + 1;
                }
            },
            _ => {},
        }
        i = i + 1;
    }
    true
}

} // verus!
