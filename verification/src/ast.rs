//! The syntax tree of a WST file.
use vstd::prelude::*;

verus! {

/// A parsed WST file.
#[derive(Debug, Clone)]
pub struct File {
    pub enforcers: Vec<Enforcer>,
    pub imports: Vec<Import>,
    pub definitions: Vec<Definition>,
    pub assertion_defs: Vec<AssertionDef>,
}

/// A file-level directive `!key=value;`.
#[derive(Debug, Clone)]
pub struct Enforcer {
    pub key: String,
    pub value: String,
}

/// An `@import` line.
#[derive(Debug, Clone)]
pub struct Import {
    pub path: String,
    pub kind: ImportKind,
}

/// What an import brings in: named types (copied or linked) or a namespace.
#[derive(Debug, Clone)]
pub enum ImportKind {
    Named { copy: bool, types: Vec<String> },
    Namespace { name: String },
}

/// A top-level definition.
#[derive(Debug, Clone)]
pub enum Definition {
    Enum(EnumDef),
    Variant(VariantDef),
    Struct(StructDef),
    Protocol(ProtocolDef),
    Const(ConstDef),
}

/// `const NAME = value`.
#[derive(Debug, Clone)]
pub struct ConstDef {
    pub name: String,
    pub value: Expr,
}

/// A constant expression. A number keeps the numeral as written.
#[derive(Debug)]
pub enum Expr {
    Str { value: String },
    Number { value: String },
    Bool { value: bool },
    Null,
    Struct { ty: String, fields: Vec<ExprField> },
    EnumCase { ty: String, case: String },
}

/// `name = value` inside a struct literal.
#[derive(Debug)]
pub struct ExprField {
    pub name: String,
    pub value: Expr,
}

#[derive(Debug, Clone)]
pub struct EnumDef {
    pub name: String,
    pub tags: Vec<Tag>,
    pub cases: Vec<EnumCase>,
    pub private: bool,
}

#[derive(Debug, Clone)]
pub struct EnumCase {
    pub name: String,
    pub tags: Vec<Tag>,
}

#[derive(Debug, Clone)]
pub struct VariantDef {
    pub name: String,
    pub tags: Vec<Tag>,
    pub cases: Vec<VariantCase>,
    pub private: bool,
}

#[derive(Debug, Clone)]
pub struct VariantCase {
    pub name: String,
    pub ty: TypeRef,
    pub tags: Vec<Tag>,
    pub line: usize,
}

#[derive(Debug, Clone)]
pub struct StructDef {
    pub name: String,
    pub tags: Vec<Tag>,
    pub copies: Vec<StructSource>,
    pub fields: Vec<StructField>,
    pub asserts: Vec<AssertRef>,
    pub private: bool,
}

/// A top-level reusable assertion definition.
#[derive(Debug, Clone)]
pub struct AssertionDef {
    pub name: String,
    /// The metavariable name (without `$`) that refers to the struct under test.
    pub param: String,
    pub body: Vec<AssertionStmt>,
}

/// A statement inside an assertion body.
#[derive(Debug)]
pub enum AssertionStmt {
    ForIn {
        /// Loop variable name (without `$`).
        var: String,
        /// Enum to iterate over.
        source: String,
        body: Vec<AssertionStmt>,
        line: usize,
    },
    HasKey {
        /// The struct metavariable being tested (without `$`).
        subject: String,
        /// The metavariable holding the key to check (without `$`).
        key: String,
        line: usize,
    },
}

/// An assertion attached to a struct: inline, or a reference to a named assertion.
#[derive(Debug, Clone)]
pub enum AssertRef {
    Inline { param: String, body: Vec<AssertionStmt>, line: usize },
    Named { name: String, line: usize },
}

/// The source of a `copy` directive.
#[derive(Debug, Clone)]
pub enum StructSource {
    Named { name: String },
    Exclude { base: String, exclude: Vec<String> },
}

#[derive(Debug, Clone)]
pub struct StructField {
    pub name: String,
    pub ty: TypeRef,
    pub tags: Vec<Tag>,
    pub line: usize,
}

#[derive(Debug, Clone)]
pub struct ProtocolDef {
    pub name: String,
    pub tags: Vec<Tag>,
    pub endpoints: Vec<Endpoint>,
    pub private: bool,
}

#[derive(Debug, Clone)]
pub struct Endpoint {
    pub name: String,
    pub tags: Vec<Tag>,
    pub request: TypeRef,
    pub response: TypeRef,
    pub error: Option<TypeRef>,
    pub line: usize,
}

#[derive(Debug)]
pub enum TypeRef {
    Primitive(Primitive),
    Vec(Box<TypeRef>),
    KeyMap { key: Primitive, value: Box<TypeRef> },
    Named(String),
}

#[derive(Debug, Clone, Copy, PartialEq, Eq, Structural)]
pub enum Primitive {
    Int32,
    Int64,
    Uin64,
    Flt64,
    Boolean,
    Str,
}

#[derive(Debug, Clone)]
pub struct Tag {
    pub namespace: Option<String>,
    pub name: String,
    pub value: TagValue,
}

/// A tag's value. A number keeps the numeral as written.
#[derive(Debug, Clone)]
pub enum TagValue {
    Bool(bool),
    Number(String),
    Str(String),
}

} // verus!
