//! Copies of syntax-tree values that have the same views as the values copied.
use vstd::prelude::*;
use crate::ast::{
    AssertRef, AssertionStmt, ConstDef, Definition, Endpoint, EnumCase, EnumDef, Expr, ExprField,
    ProtocolDef, StructDef, StructField, StructSource, Tag, TagValue, TypeRef, VariantCase,
    VariantDef,
};
use crate::text::copy_string;
use crate::view::{expr_fields_view, expr_view, stmts_view};

verus! {

pub fn copy_strings(v: &Vec<String>) -> (r: Vec<String>)
    ensures
        r@ == v@,
        r@.len() == v@.len(),
{
    let mut r: Vec<String> = Vec::new();
    let mut i: usize = 0;
    while i < v.len()
        invariant
            i <= v.len(),
            r@.len() == i,
            r@ == v@.subrange(0, i as int),
        decreases v.len() - i,
    {
        let x = copy_string(&v[i]);
        r.push(x);
        i = i + 1;
        
    }
    assert(r@ =~= v@);
    r
}

pub fn copy_opt_string(v: &Option<String>) -> (r: Option<String>)
    ensures
        r == *v,
{
    match v {
        Some(s) => Some(copy_string(s)),
        None => None,
    }
}

pub fn copy_type(t: &TypeRef) -> (r: TypeRef)
    ensures
        r == *t,
    decreases t,
{
    match t {
        TypeRef::Primitive(p) => TypeRef::Primitive(*p),
        TypeRef::Vec(inner) => TypeRef::Vec(Box::new(copy_type(inner))),
        TypeRef::KeyMap { key, value } => TypeRef::KeyMap { key: *key, value: Box::new(copy_type(value)) },
        TypeRef::Named(n) => TypeRef::Named(copy_string(n)),
    }
}

impl Clone for TypeRef {
    fn clone(&self) -> (r: Self)
        ensures
            r == *self,
    {
        copy_type(self)
    }
}

pub fn copy_opt_type(t: &Option<TypeRef>) -> (r: Option<TypeRef>)
    ensures
        r == *t,
{
    match t {
        Some(x) => Some(copy_type(x)),
        None => None,
    }
}

pub fn copy_tag(t: &Tag) -> (r: Tag)
    ensures
        r == *t,
{
    let value = match &t.value {
        TagValue::Bool(b) => TagValue::Bool(*b),
        TagValue::Number(n) => TagValue::Number(copy_string(n)),
        TagValue::Str(s) => TagValue::Str(copy_string(s)),
    };
    Tag { namespace: copy_opt_string(&t.namespace), name: copy_string(&t.name), value }
}

pub fn copy_tags(v: &Vec<Tag>) -> (r: Vec<Tag>)
    ensures
        r@ == v@,
        r@.len() == v@.len(),
{
    let mut r: Vec<Tag> = Vec::new();
    let mut i: usize = 0;
    while i < v.len()
        invariant
            i <= v.len(),
            r@.len() == i,
            r@ == v@.subrange(0, i as int),
        decreases v.len() - i,
    {
        let x = copy_tag(&v[i]);
        r.push(x);
        i = i + 1;
        
    }
    assert(r@ =~= v@);
    r
}

pub fn copy_field(f: &StructField) -> (r: StructField)
    ensures
        r@ == f@,
{
    StructField { name: copy_string(&f.name), ty: copy_type(&f.ty), tags: copy_tags(&f.tags), line: f.line }
}

pub fn copy_fields(v: &Vec<StructField>) -> (r: Vec<StructField>)
    ensures
        r@.map_values(|x: StructField| x@) == v@.map_values(|x: StructField| x@),
        r@.len() == v@.len(),
{
    let mut r: Vec<StructField> = Vec::new();
    let mut i: usize = 0;
    while i < v.len()
        invariant
            i <= v.len(),
            r@.len() == i,
            forall|j: int| 0 <= j < i ==> r@[j]@ == v@[j]@,
        decreases v.len() - i,
    {
        let x = copy_field(&v[i]);
        r.push(x);
        i = i + 1;
    }
    assert(r@.map_values(|x: StructField| x@) =~= v@.map_values(|x: StructField| x@));
    r
}

pub fn copy_source(s: &StructSource) -> (r: StructSource)
    ensures
        r@ == s@,
{
    match s {
        StructSource::Named { name } => StructSource::Named { name: copy_string(name) },
        StructSource::Exclude { base, exclude } => StructSource::Exclude {
            base: copy_string(base),
            exclude: copy_strings(exclude),
        },
    }
}

pub fn copy_sources(v: &Vec<StructSource>) -> (r: Vec<StructSource>)
    ensures
        r@.map_values(|x: StructSource| x@) == v@.map_values(|x: StructSource| x@),
        r@.len() == v@.len(),
{
    let mut r: Vec<StructSource> = Vec::new();
    let mut i: usize = 0;
    while i < v.len()
        invariant
            i <= v.len(),
            r@.len() == i,
            forall|j: int| 0 <= j < i ==> r@[j]@ == v@[j]@,
        decreases v.len() - i,
    {
        let x = copy_source(&v[i]);
        r.push(x);
        i = i + 1;
    }
    assert(r@.map_values(|x: StructSource| x@) =~= v@.map_values(|x: StructSource| x@));
    r
}

pub fn copy_stmt(s: &AssertionStmt) -> (r: AssertionStmt)
    ensures
        r@ == s@,
    decreases s, 0nat,
{
    match s {
        AssertionStmt::ForIn { var, source, body, line } => AssertionStmt::ForIn {
            var: copy_string(var),
            source: copy_string(source),
            body: copy_stmts(body),
            line: *line,
        },
        AssertionStmt::HasKey { subject, key, line } => AssertionStmt::HasKey {
            subject: copy_string(subject),
            key: copy_string(key),
            line: *line,
        },
    }
}

pub fn copy_stmts(v: &Vec<AssertionStmt>) -> (r: Vec<AssertionStmt>)
    ensures
        stmts_view(r@) == stmts_view(v@),
    decreases v, 1nat,
{
    let mut r: Vec<AssertionStmt> = Vec::new();
    let mut i: usize = 0;
    while i < v.len()
        invariant
            i <= v.len(),
            r@.len() == i,
            forall|j: int| 0 <= j < i ==> r@[j]@ == v@[j]@,
        decreases v.len() - i,
    {
        assert(decreases_to!(v => v@[i as int]));
        let x = copy_stmt(&v[i]);
        r.push(x);
        i = i + 1;
    }
    assert(stmts_view(r@) =~= stmts_view(v@));
    r
}

impl Clone for AssertionStmt {
    fn clone(&self) -> (r: Self)
        ensures
            r@ == self@,
    {
        copy_stmt(self)
    }
}

pub fn copy_assert(a: &AssertRef) -> (r: AssertRef)
    ensures
        r@ == a@,
{
    match a {
        AssertRef::Inline { param, body, line } => AssertRef::Inline {
            param: copy_string(param),
            body: copy_stmts(body),
            line: *line,
        },
        AssertRef::Named { name, line } => AssertRef::Named { name: copy_string(name), line: *line },
    }
}

pub fn copy_asserts(v: &Vec<AssertRef>) -> (r: Vec<AssertRef>)
    ensures
        r@.map_values(|x: AssertRef| x@) == v@.map_values(|x: AssertRef| x@),
        r@.len() == v@.len(),
{
    let mut r: Vec<AssertRef> = Vec::new();
    let mut i: usize = 0;
    while i < v.len()
        invariant
            i <= v.len(),
            r@.len() == i,
            forall|j: int| 0 <= j < i ==> r@[j]@ == v@[j]@,
        decreases v.len() - i,
    {
        let x = copy_assert(&v[i]);
        r.push(x);
        i = i + 1;
    }
    assert(r@.map_values(|x: AssertRef| x@) =~= v@.map_values(|x: AssertRef| x@));
    r
}

pub fn copy_enum_case(c: &EnumCase) -> (r: EnumCase)
    ensures
        r@ == c@,
{
    EnumCase { name: copy_string(&c.name), tags: copy_tags(&c.tags) }
}

pub fn copy_enum_cases(v: &Vec<EnumCase>) -> (r: Vec<EnumCase>)
    ensures
        r@.map_values(|x: EnumCase| x@) == v@.map_values(|x: EnumCase| x@),
        r@.len() == v@.len(),
{
    let mut r: Vec<EnumCase> = Vec::new();
    let mut i: usize = 0;
    while i < v.len()
        invariant
            i <= v.len(),
            r@.len() == i,
            forall|j: int| 0 <= j < i ==> r@[j]@ == v@[j]@,
        decreases v.len() - i,
    {
        let x = copy_enum_case(&v[i]);
        r.push(x);
        i = i + 1;
    }
    assert(r@.map_values(|x: EnumCase| x@) =~= v@.map_values(|x: EnumCase| x@));
    r
}

pub fn copy_variant_case(c: &VariantCase) -> (r: VariantCase)
    ensures
        r@ == c@,
{
    VariantCase { name: copy_string(&c.name), ty: copy_type(&c.ty), tags: copy_tags(&c.tags), line: c.line }
}

pub fn copy_variant_cases(v: &Vec<VariantCase>) -> (r: Vec<VariantCase>)
    ensures
        r@.map_values(|x: VariantCase| x@) == v@.map_values(|x: VariantCase| x@),
        r@.len() == v@.len(),
{
    let mut r: Vec<VariantCase> = Vec::new();
    let mut i: usize = 0;
    while i < v.len()
        invariant
            i <= v.len(),
            r@.len() == i,
            forall|j: int| 0 <= j < i ==> r@[j]@ == v@[j]@,
        decreases v.len() - i,
    {
        let x = copy_variant_case(&v[i]);
        r.push(x);
        i = i + 1;
    }
    assert(r@.map_values(|x: VariantCase| x@) =~= v@.map_values(|x: VariantCase| x@));
    r
}

pub fn copy_endpoint(e: &Endpoint) -> (r: Endpoint)
    ensures
        r@ == e@,
{
    Endpoint {
        name: copy_string(&e.name),
        tags: copy_tags(&e.tags),
        request: copy_type(&e.request),
        response: copy_type(&e.response),
        error: copy_opt_type(&e.error),
        line: e.line,
    }
}

pub fn copy_endpoints(v: &Vec<Endpoint>) -> (r: Vec<Endpoint>)
    ensures
        r@.map_values(|x: Endpoint| x@) == v@.map_values(|x: Endpoint| x@),
        r@.len() == v@.len(),
{
    let mut r: Vec<Endpoint> = Vec::new();
    let mut i: usize = 0;
    while i < v.len()
        invariant
            i <= v.len(),
            r@.len() == i,
            forall|j: int| 0 <= j < i ==> r@[j]@ == v@[j]@,
        decreases v.len() - i,
    {
        let x = copy_endpoint(&v[i]);
        r.push(x);
        i = i + 1;
    }
    assert(r@.map_values(|x: Endpoint| x@) =~= v@.map_values(|x: Endpoint| x@));
    r
}

pub fn copy_expr(e: &Expr) -> (r: Expr)
    ensures
        r@ == e@,
    decreases e, 0nat,
{
    match e {
        Expr::Str { value } => Expr::Str { value: copy_string(value) },
        Expr::Number { value } => Expr::Number { value: copy_string(value) },
        Expr::Bool { value } => Expr::Bool { value: *value },
        Expr::Null => Expr::Null,
        Expr::Struct { ty, fields } => Expr::Struct { ty: copy_string(ty), fields: copy_expr_fields(fields) },
        Expr::EnumCase { ty, case } => Expr::EnumCase { ty: copy_string(ty), case: copy_string(case) },
    }
}

pub fn copy_expr_fields(v: &Vec<ExprField>) -> (r: Vec<ExprField>)
    ensures
        expr_fields_view(r@) == expr_fields_view(v@),
    decreases v, 1nat,
{
    let mut r: Vec<ExprField> = Vec::new();
    let mut i: usize = 0;
    while i < v.len()
        invariant
            i <= v.len(),
            r@.len() == i,
            forall|j: int| 0 <= j < i ==> r@[j].name == v@[j].name && expr_view(r@[j].value) == expr_view(v@[j].value),
        decreases v.len() - i,
    {
        assert(decreases_to!(v => v@[i as int]));
        let f = ExprField { name: copy_string(&v[i].name), value: copy_expr(&v[i].value) };
        r.push(f);
        i = i + 1;
    }
    assert(expr_fields_view(r@) =~= expr_fields_view(v@));
    r
}

impl Clone for Expr {
    fn clone(&self) -> (r: Self)
        ensures
            r@ == self@,
    {
        copy_expr(self)
    }
}

impl Clone for ExprField {
    fn clone(&self) -> (r: Self)
        ensures
            r.name == self.name,
            expr_view(r.value) == expr_view(self.value),
    {
        ExprField { name: copy_string(&self.name), value: copy_expr(&self.value) }
    }
}

pub fn copy_definition(d: &Definition) -> (r: Definition)
    ensures
        r@ == d@,
{
    match d {
        Definition::Enum(e) => Definition::Enum(EnumDef {
            name: copy_string(&e.name),
            tags: copy_tags(&e.tags),
            cases: copy_enum_cases(&e.cases),
            private: e.private,
        }),
        Definition::Variant(v) => Definition::Variant(VariantDef {
            name: copy_string(&v.name),
            tags: copy_tags(&v.tags),
            cases: copy_variant_cases(&v.cases),
            private: v.private,
        }),
        Definition::Struct(s) => Definition::Struct(StructDef {
            name: copy_string(&s.name),
            tags: copy_tags(&s.tags),
            copies: copy_sources(&s.copies),
            fields: copy_fields(&s.fields),
            asserts: copy_asserts(&s.asserts),
            private: s.private,
        }),
        Definition::Protocol(p) => Definition::Protocol(ProtocolDef {
            name: copy_string(&p.name),
            tags: copy_tags(&p.tags),
            endpoints: copy_endpoints(&p.endpoints),
            private: p.private,
        }),
        Definition::Const(c) => Definition::Const(ConstDef { name: copy_string(&c.name), value: copy_expr(&c.value) }),
    }
}

} // verus!
