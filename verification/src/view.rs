//! Mathematical views of the syntax tree: every `Vec` becomes a `Seq` of views.
use vstd::prelude::*;
use crate::ast::{
    AssertRef, AssertionDef, AssertionStmt, ConstDef, Definition, Endpoint, EnumCase, EnumDef,
    Enforcer, Expr, ExprField, File, Import, ImportKind, Primitive, ProtocolDef, StructDef,
    StructField, StructSource, Tag, TypeRef, VariantCase, VariantDef,
};

verus! {

pub struct FileV {
    pub enforcers: Seq<Enforcer>,
    pub imports: Seq<ImportV>,
    pub definitions: Seq<DefinitionV>,
    pub assertion_defs: Seq<AssertionDefV>,
}

pub struct ImportV {
    pub path: String,
    pub kind: ImportKindV,
}

pub enum ImportKindV {
    Named { copy: bool, types: Seq<String> },
    Namespace { name: String },
}

pub enum DefinitionV {
    Enum(EnumDefV),
    Variant(VariantDefV),
    Struct(StructDefV),
    Protocol(ProtocolDefV),
    Const(ConstDefV),
}

pub struct ConstDefV {
    pub name: String,
    pub value: ExprV,
}

pub enum ExprV {
    Str { value: String },
    Number { value: String },
    Bool { value: bool },
    Null,
    Struct { ty: String, fields: Seq<ExprFieldV> },
    EnumCase { ty: String, case: String },
}

pub struct ExprFieldV {
    pub name: String,
    pub value: ExprV,
}

pub struct EnumDefV {
    pub name: String,
    pub tags: Seq<Tag>,
    pub cases: Seq<EnumCaseV>,
    pub private: bool,
}

pub struct EnumCaseV {
    pub name: String,
    pub tags: Seq<Tag>,
}

pub struct VariantDefV {
    pub name: String,
    pub tags: Seq<Tag>,
    pub cases: Seq<VariantCaseV>,
    pub private: bool,
}

pub struct VariantCaseV {
    pub name: String,
    pub ty: TypeRef,
    pub tags: Seq<Tag>,
    pub line: usize,
}

pub struct StructDefV {
    pub name: String,
    pub tags: Seq<Tag>,
    pub copies: Seq<StructSourceV>,
    pub fields: Seq<StructFieldV>,
    pub asserts: Seq<AssertRefV>,
    pub private: bool,
}

pub struct AssertionDefV {
    pub name: String,
    pub param: String,
    pub body: Seq<AssertionStmtV>,
}

pub enum AssertionStmtV {
    ForIn { var: String, source: String, body: Seq<AssertionStmtV>, line: usize },
    HasKey { subject: String, key: String, line: usize },
}

pub enum AssertRefV {
    Inline { param: String, body: Seq<AssertionStmtV>, line: usize },
    Named { name: String, line: usize },
}

pub enum StructSourceV {
    Named { name: String },
    Exclude { base: String, exclude: Seq<String> },
}

pub struct StructFieldV {
    pub name: String,
    pub ty: TypeRef,
    pub tags: Seq<Tag>,
    pub line: usize,
}

pub struct ProtocolDefV {
    pub name: String,
    pub tags: Seq<Tag>,
    pub endpoints: Seq<EndpointV>,
    pub private: bool,
}

pub struct EndpointV {
    pub name: String,
    pub tags: Seq<Tag>,
    pub request: TypeRef,
    pub response: TypeRef,
    pub error: Option<TypeRef>,
    pub line: usize,
}

impl View for Import {
    type V = ImportV;

    open spec fn view(&self) -> ImportV {
        ImportV {
            path: self.path,
            kind: match self.kind {
                ImportKind::Named { copy, types } => ImportKindV::Named { copy, types: types@ },
                ImportKind::Namespace { name } => ImportKindV::Namespace { name },
            },
        }
    }
}

impl View for EnumCase {
    type V = EnumCaseV;

    open spec fn view(&self) -> EnumCaseV {
        EnumCaseV { name: self.name, tags: self.tags@ }
    }
}

impl View for EnumDef {
    type V = EnumDefV;

    open spec fn view(&self) -> EnumDefV {
        EnumDefV {
            name: self.name,
            tags: self.tags@,
            cases: self.cases@.map_values(|c: EnumCase| c@),
            private: self.private,
        }
    }
}

impl View for VariantCase {
    type V = VariantCaseV;

    open spec fn view(&self) -> VariantCaseV {
        VariantCaseV { name: self.name, ty: self.ty, tags: self.tags@, line: self.line }
    }
}

impl View for VariantDef {
    type V = VariantDefV;

    open spec fn view(&self) -> VariantDefV {
        VariantDefV {
            name: self.name,
            tags: self.tags@,
            cases: self.cases@.map_values(|c: VariantCase| c@),
            private: self.private,
        }
    }
}

impl View for StructField {
    type V = StructFieldV;

    open spec fn view(&self) -> StructFieldV {
        StructFieldV { name: self.name, ty: self.ty, tags: self.tags@, line: self.line }
    }
}

impl View for StructSource {
    type V = StructSourceV;

    open spec fn view(&self) -> StructSourceV {
        match self {
            StructSource::Named { name } => StructSourceV::Named { name: *name },
            StructSource::Exclude { base, exclude } => StructSourceV::Exclude { base: *base, exclude: exclude@ },
        }
    }
}

/// The view of an assertion statement.
pub open spec fn stmt_view(s: AssertionStmt) -> AssertionStmtV
    decreases s, 0nat,
{
    match s {
        AssertionStmt::ForIn { var, source, body, line } => AssertionStmtV::ForIn {
            var,
            source,
            body: stmts_view(body@),
            line,
        },
        AssertionStmt::HasKey { subject, key, line } => AssertionStmtV::HasKey { subject, key, line },
    }
}

/// The views of a sequence of assertion statements.
pub open spec fn stmts_view(s: Seq<AssertionStmt>) -> Seq<AssertionStmtV>
    decreases s, 1nat,
{
    Seq::new(s.len(), |i: int| if 0 <= i < s.len() { stmt_view(s[i]) } else { arbitrary() })
}

impl View for AssertionStmt {
    type V = AssertionStmtV;

    open spec fn view(&self) -> AssertionStmtV {
        stmt_view(*self)
    }
}

impl View for AssertRef {
    type V = AssertRefV;

    open spec fn view(&self) -> AssertRefV {
        match self {
            AssertRef::Inline { param, body, line } => AssertRefV::Inline { param: *param, body: stmts_view(body@), line: *line },
            AssertRef::Named { name, line } => AssertRefV::Named { name: *name, line: *line },
        }
    }
}

impl View for AssertionDef {
    type V = AssertionDefV;

    open spec fn view(&self) -> AssertionDefV {
        AssertionDefV { name: self.name, param: self.param, body: stmts_view(self.body@) }
    }
}

impl View for StructDef {
    type V = StructDefV;

    open spec fn view(&self) -> StructDefV {
        StructDefV {
            name: self.name,
            tags: self.tags@,
            copies: self.copies@.map_values(|c: StructSource| c@),
            fields: self.fields@.map_values(|f: StructField| f@),
            asserts: self.asserts@.map_values(|a: AssertRef| a@),
            private: self.private,
        }
    }
}

impl View for Endpoint {
    type V = EndpointV;

    open spec fn view(&self) -> EndpointV {
        EndpointV {
            name: self.name,
            tags: self.tags@,
            request: self.request,
            response: self.response,
            error: self.error,
            line: self.line,
        }
    }
}

impl View for ProtocolDef {
    type V = ProtocolDefV;

    open spec fn view(&self) -> ProtocolDefV {
        ProtocolDefV {
            name: self.name,
            tags: self.tags@,
            endpoints: self.endpoints@.map_values(|e: Endpoint| e@),
            private: self.private,
        }
    }
}

/// The view of a constant expression.
pub open spec fn expr_view(e: Expr) -> ExprV
    decreases e, 0nat,
{
    match e {
        Expr::Str { value } => ExprV::Str { value },
        Expr::Number { value } => ExprV::Number { value },
        Expr::Bool { value } => ExprV::Bool { value },
        Expr::Null => ExprV::Null,
        Expr::Struct { ty, fields } => ExprV::Struct { ty, fields: expr_fields_view(fields@) },
        Expr::EnumCase { ty, case } => ExprV::EnumCase { ty, case },
    }
}

/// The views of the fields of a struct literal.
pub open spec fn expr_fields_view(s: Seq<ExprField>) -> Seq<ExprFieldV>
    decreases s, 1nat,
{
    Seq::new(s.len(), |i: int| if 0 <= i < s.len() { ExprFieldV { name: s[i].name, value: expr_view(s[i].value) } } else { arbitrary() })
}

impl View for Expr {
    type V = ExprV;

    open spec fn view(&self) -> ExprV {
        expr_view(*self)
    }
}

impl View for ConstDef {
    type V = ConstDefV;

    open spec fn view(&self) -> ConstDefV {
        ConstDefV { name: self.name, value: expr_view(self.value) }
    }
}

impl View for Definition {
    type V = DefinitionV;

    open spec fn view(&self) -> DefinitionV {
        match self {
            Definition::Enum(e) => DefinitionV::Enum(e@),
            Definition::Variant(v) => DefinitionV::Variant(v@),
            Definition::Struct(s) => DefinitionV::Struct(s@),
            Definition::Protocol(p) => DefinitionV::Protocol(p@),
            Definition::Const(c) => DefinitionV::Const(c@),
        }
    }
}

impl View for File {
    type V = FileV;

    open spec fn view(&self) -> FileV {
        FileV {
            enforcers: self.enforcers@,
            imports: self.imports@.map_values(|i: Import| i@),
            definitions: self.definitions@.map_values(|d: Definition| d@),
            assertion_defs: self.assertion_defs@.map_values(|a: AssertionDef| a@),
        }
    }
}

} // verus!
