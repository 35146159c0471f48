//! The meaning of the parser, stated over the token sequence: each function reads
//! from a position and gives the syntax (as a view) and the position after it, or
//! the error where reading stops.
use vstd::prelude::*;
use crate::ast::{Enforcer, Primitive, Tag, TagValue, TypeRef};
use crate::lexer::{Spanned, Token};
use crate::text::string_of;
use crate::view::{
    AssertRefV, AssertionDefV, AssertionStmtV, ConstDefV, DefinitionV, EndpointV, EnumCaseV,
    EnumDefV, ExprFieldV, ExprV, FileV, ImportKindV, ImportV, ProtocolDefV, StructDefV,
    StructFieldV, StructSourceV, VariantCaseV, VariantDefV,
};

verus! {

/// Why a token sequence is not a WST file. Most errors carry the line and
/// column of the token where reading stopped, and that token.
#[derive(Debug, Clone, PartialEq)]
pub enum ParseError {
    ExpectedIdent { line: usize, col: usize, got: Token },
    ExpectedToken { line: usize, col: usize, expected: Token, got: Token },
    ExpectedCommaOrClose { line: usize, col: usize, got: Token },
    ImportKeyword { got: String },
    CopyKeyword { got: String },
    ExpectedImportName { line: usize, col: usize, got: Token },
    MissingImportPath,
    PrivateConst { line: usize, col: usize },
    UnknownDefinition { line: usize, col: usize, private: bool, got: String },
    ExpectedCase { line: usize, col: usize, got: Token },
    CopyAfterField { line: usize, col: usize },
    ExpectedStructMember { line: usize, col: usize, got: Token },
    ExpectedAssertRef { line: usize, col: usize, got: Token },
    AssertionParamKind { line: usize, col: usize, got: String },
    ExpectedForOrClose { line: usize, col: usize, got: Token },
    ExpectedIn { line: usize, col: usize, got: String },
    UnknownCheck { line: usize, col: usize, got: String },
    ExpectedCheckOrClose { line: usize, col: usize, got: Token },
    ExpectedExcludedName { line: usize, col: usize, got: Token },
    UnknownOp { line: usize, col: usize, op: String },
    ExpectedCopySource { line: usize, col: usize, got: Token },
    ExpectedBraceOrCase { line: usize, col: usize },
    ExpectedExpr { line: usize, col: usize, got: Token },
    ExpectedLiteralField { line: usize, col: usize, got: Token },
    ExpectedEndpoint { line: usize, col: usize, got: Token },
    ExpectedType { line: usize, col: usize, got: Token },
    ExpectedPrimitive { line: usize, col: usize, got: String },
    InlineTagLine { line: usize, col: usize },
    ExpectedTagValue { line: usize, col: usize, got: Token },
}

/// Reading position: index of the next token, and the line of the last token read.
pub type PState = (int, int);

/// What reading one construct gives: its view and the position after it.
pub type PResult<T> = Result<(T, PState), ParseError>;

/// The token at the position; `Eof` past the end.
pub open spec fn tok(t: Seq<Spanned>, st: PState) -> Token {
    if 0 <= st.0 < t.len() { t[st.0].0 } else { Token::Eof }
}

/// Line and column of the token at the position; `(0, 0)` past the end.
pub open spec fn here(t: Seq<Spanned>, st: PState) -> (usize, usize) {
    if 0 <= st.0 < t.len() { (t[st.0].1, t[st.0].2) } else { (0usize, 0usize) }
}

/// The position after reading one token (unchanged past the end).
pub open spec fn next(t: Seq<Spanned>, st: PState) -> PState {
    if 0 <= st.0 < t.len() { (st.0 + 1, t[st.0].1 as int) } else { st }
}

/// Reading went forward and stayed within the tokens.
pub open spec fn progressed(t: Seq<Spanned>, st: PState, st2: PState) -> bool {
    st.0 < st2.0 <= t.len()
}

/// Skips one `;` if it stands at the position.
pub open spec fn opt_semicolon(t: Seq<Spanned>, st: PState) -> PState {
    if tok(t, st) is Semicolon { next(t, st) } else { st }
}

/// Skips one `,` if it stands at the position.
pub open spec fn opt_comma(t: Seq<Spanned>, st: PState) -> PState {
    if tok(t, st) is Comma { next(t, st) } else { st }
}

/// `name.other`.
pub open spec fn dotted(a: String, b: String) -> String {
    string_of(a@ + seq!['.'] + b@)
}

pub open spec fn p_ident(t: Seq<Spanned>, st: PState) -> PResult<String> {
    let tk = tok(t, st);
    if tk is Ident {
        Ok((tk->Ident_0, next(t, st)))
    } else {
        Err(ParseError::ExpectedIdent { line: here(t, st).0, col: here(t, st).1, got: tk })
    }
}

pub open spec fn p_expect(t: Seq<Spanned>, st: PState, expected: Token) -> PResult<()> {
    if tok(t, st) == expected {
        Ok(((), next(t, st)))
    } else {
        Err(ParseError::ExpectedToken { line: here(t, st).0, col: here(t, st).1, expected, got: tok(t, st) })
    }
}

/// A `,` between items, or nothing before a closing `}`.
pub open spec fn p_comma_or_close(t: Seq<Spanned>, st: PState) -> PResult<()> {
    let n = tok(t, st);
    if n is Comma {
        Ok(((), next(t, st)))
    } else if n != Token::RBrace {
        Err(ParseError::ExpectedCommaOrClose { line: here(t, st).0, col: here(t, st).1, got: n })
    } else {
        Ok(((), st))
    }
}

pub open spec fn p_dollar_ident(t: Seq<Spanned>, st: PState) -> PResult<String> {
    match p_expect(t, st, Token::Dollar) {
        Err(e) => Err(e),
        Ok((_, s1)) => p_ident(t, s1),
    }
}

pub open spec fn p_enforcer(t: Seq<Spanned>, st: PState) -> PResult<Enforcer> {
    match p_ident(t, st) {
        Err(e) => Err(e),
        Ok((key, s1)) => match p_expect(t, s1, Token::Equals) {
            Err(e) => Err(e),
            Ok((_, s2)) => match p_ident(t, s2) {
                Err(e) => Err(e),
                Ok((value, s3)) => match p_expect(t, s3, Token::Semicolon) {
                    Err(e) => Err(e),
                    Ok((_, s4)) => Ok((Enforcer { key, value }, s4)),
                },
            },
        },
    }
}

/// The characters of an import path: `.`, `/` and identifiers, as long as they come.
pub open spec fn p_path(t: Seq<Spanned>, st: PState, acc: Seq<char>) -> (Seq<char>, PState)
    decreases t.len() - st.0,
{
    let tk = tok(t, st);
    if !(0 <= st.0 < t.len()) {
        (acc, st)
    } else if tk is Dot {
        p_path(t, next(t, st), acc.push('.'))
    } else if tk is Slash {
        p_path(t, next(t, st), acc.push('/'))
    } else if tk is Ident {
        p_path(t, next(t, st), acc + tk->Ident_0@)
    } else {
        (acc, st)
    }
}

/// The names of an import list, up to and including `}`.
pub open spec fn p_import_names(t: Seq<Spanned>, st: PState, acc: Seq<String>) -> PResult<Seq<String>>
    decreases t.len() - st.0,
{
    let tk = tok(t, st);
    if tk is RBrace {
        Ok((acc, next(t, st)))
    } else if tk is Ident && 0 <= st.0 < t.len() {
        p_import_names(t, opt_comma(t, next(t, st)), acc.push(tk->Ident_0))
    } else {
        Err(ParseError::ExpectedImportName { line: here(t, st).0, col: here(t, st).1, got: tk })
    }
}

/// An import after its `@`.
pub open spec fn p_import(t: Seq<Spanned>, st: PState) -> PResult<ImportV> {
    match p_ident(t, st) {
        Err(e) => Err(e),
        Ok((kw, s1)) => if kw@ != "import"@ {
            Err(ParseError::ImportKeyword { got: kw })
        } else {
            let (path, s2) = p_path(t, s1, Seq::empty());
            if path.len() == 0 {
                Err(ParseError::MissingImportPath)
            } else if tok(t, s2) is Star {
                match p_ident(t, next(t, s2)) {
                    Err(e) => Err(e),
                    Ok((name, s4)) => match p_expect(t, s4, Token::Semicolon) {
                        Err(e) => Err(e),
                        Ok((_, s5)) => Ok((ImportV { path: string_of(path), kind: ImportKindV::Namespace { name } }, s5)),
                    },
                }
            } else {
                let copy: Result<(bool, PState), ParseError> = if tok(t, s2) is Caret {
                    match p_ident(t, next(t, s2)) {
                        Err(e) => Err(e),
                        Ok((kw2, s4)) => if kw2@ != "copy"@ {
                            Err(ParseError::CopyKeyword { got: kw2 })
                        } else {
                            Ok((true, s4))
                        },
                    }
                } else {
                    Ok((false, s2))
                };
                match copy {
                    Err(e) => Err(e),
                    Ok((copy, s3)) => match p_expect(t, s3, Token::LBrace) {
                        Err(e) => Err(e),
                        Ok((_, s4)) => match p_import_names(t, s4, Seq::empty()) {
                            Err(e) => Err(e),
                            Ok((types, s5)) => match p_expect(t, s5, Token::Semicolon) {
                                Err(e) => Err(e),
                                Ok((_, s6)) => Ok((ImportV { path: string_of(path), kind: ImportKindV::Named { copy, types } }, s6)),
                            },
                        },
                    },
                }
            }
        },
    }
}

/// A tag `#name`, `#ns:name`, optionally `= value`.
pub open spec fn p_tag(t: Seq<Spanned>, st: PState) -> PResult<Tag> {
    match p_expect(t, st, Token::Hash) {
        Err(e) => Err(e),
        Ok((_, s1)) => match p_ident(t, s1) {
            Err(e) => Err(e),
            Ok((first, s2)) => {
                let named: Result<(Option<String>, String, PState), ParseError> = if tok(t, s2) is Colon {
                    match p_ident(t, next(t, s2)) {
                        Err(e) => Err(e),
                        Ok((n, s4)) => Ok((Some(first), n, s4)),
                    }
                } else {
                    Ok((None, first, s2))
                };
                match named {
                    Err(e) => Err(e),
                    Ok((namespace, name, s3)) => if tok(t, s3) is Equals {
                        let s5 = next(t, s3);
                        let tk = tok(t, s5);
                        let s6 = next(t, s5);
                        if tk is StringLit {
                            Ok((Tag { namespace, name, value: TagValue::Str(tk->StringLit_0) }, s6))
                        } else if tk is NumberLit {
                            Ok((Tag { namespace, name, value: TagValue::Number(tk->NumberLit_0) }, s6))
                        } else if tk is BoolLit {
                            Ok((Tag { namespace, name, value: TagValue::Bool(tk->BoolLit_0) }, s6))
                        } else {
                            Err(ParseError::ExpectedTagValue { line: here(t, s5).0, col: here(t, s5).1, got: tk })
                        }
                    } else {
                        Ok((Tag { namespace, name, value: TagValue::Bool(true) }, s3))
                    },
                }
            },
        },
    }
}

/// Tags inside `[ ... ]`, up to (not including) `]` or the end.
pub open spec fn p_bracket_tags(t: Seq<Spanned>, st: PState, acc: Seq<Tag>) -> PResult<Seq<Tag>>
    decreases t.len() - st.0,
{
    let tk = tok(t, st);
    if tk is RBracket || tk is Eof {
        Ok((acc, st))
    } else {
        match p_tag(t, st) {
            Err(e) => Err(e),
            Ok((tag, s1)) => if progressed(t, st, s1) {
                p_bracket_tags(t, s1, acc.push(tag))
            } else {
                Ok((acc, s1))
            },
        }
    }
}

/// Inline tags, which must all stand on line `prev_line`.
pub open spec fn p_inline_tags(t: Seq<Spanned>, st: PState, prev_line: int, acc: Seq<Tag>) -> PResult<Seq<Tag>>
    decreases t.len() - st.0,
{
    if tok(t, st) is Hash {
        if here(t, st).0 as int != prev_line {
            Err(ParseError::InlineTagLine { line: here(t, st).0, col: here(t, st).1 })
        } else {
            match p_tag(t, st) {
                Err(e) => Err(e),
                Ok((tag, s1)) => if progressed(t, st, s1) {
                    p_inline_tags(t, s1, prev_line, acc.push(tag))
                } else {
                    Ok((acc, s1))
                },
            }
        }
    } else {
        Ok((acc, st))
    }
}

/// The tags of an item whose last token stands on `prev_line`: `[ ... ]` or inline.
pub open spec fn p_tags(t: Seq<Spanned>, st: PState, prev_line: int) -> PResult<Seq<Tag>> {
    if tok(t, st) is LBracket {
        match p_bracket_tags(t, next(t, st), Seq::empty()) {
            Err(e) => Err(e),
            Ok((tags, s2)) => match p_expect(t, s2, Token::RBracket) {
                Err(e) => Err(e),
                Ok((_, s3)) => Ok((tags, s3)),
            },
        }
    } else {
        p_inline_tags(t, st, prev_line, Seq::empty())
    }
}

pub open spec fn primitive_named(name: Seq<char>) -> Option<Primitive> {
    if name == "int32"@ { Some(Primitive::Int32) }
    else if name == "int64"@ { Some(Primitive::Int64) }
    else if name == "uin64"@ { Some(Primitive::Uin64) }
    else if name == "flt64"@ { Some(Primitive::Flt64) }
    else if name == "boolean"@ { Some(Primitive::Boolean) }
    else if name == "string"@ { Some(Primitive::Str) }
    else { None }
}

pub open spec fn p_primitive(t: Seq<Spanned>, st: PState) -> PResult<Primitive> {
    match p_ident(t, st) {
        Err(e) => Err(e),
        Ok((name, s1)) => match primitive_named(name@) {
            Some(p) => Ok((p, s1)),
            None => Err(ParseError::ExpectedPrimitive { line: here(t, st).0, col: here(t, st).1, got: name }),
        },
    }
}

/// `.part` suffixes of a type name, appended to `acc`.
pub open spec fn p_type_suffix(t: Seq<Spanned>, st: PState, acc: Seq<char>) -> PResult<Seq<char>>
    decreases t.len() - st.0,
{
    if tok(t, st) is Dot && 0 <= st.0 < t.len() {
        match p_ident(t, next(t, st)) {
            Err(e) => Err(e),
            Ok((part, s2)) => p_type_suffix(t, s2, acc + seq!['.'] + part@),
        }
    } else {
        Ok((acc, st))
    }
}

pub open spec fn p_type(t: Seq<Spanned>, st: PState) -> PResult<TypeRef>
    decreases t.len() - st.0,
{
    let tk = tok(t, st);
    if tk is Ident && 0 <= st.0 < t.len() {
        let name = tk->Ident_0;
        let s1 = next(t, st);
        if primitive_named(name@) is Some {
            Ok((TypeRef::Primitive(primitive_named(name@)->0), s1))
        } else if name@ == "vec"@ {
            match p_expect(t, s1, Token::LAngle) {
                Err(e) => Err(e),
                Ok((_, s2)) => match p_type(t, s2) {
                    Err(e) => Err(e),
                    Ok((inner, s3)) => match p_expect(t, s3, Token::RAngle) {
                        Err(e) => Err(e),
                        Ok((_, s4)) => Ok((TypeRef::Vec(Box::new(inner)), s4)),
                    },
                },
            }
        } else if name@ == "map"@ {
            match p_expect(t, s1, Token::LAngle) {
                Err(e) => Err(e),
                Ok((_, s2)) => match p_primitive(t, s2) {
                    Err(e) => Err(e),
                    Ok((key, s3)) => match p_expect(t, s3, Token::Comma) {
                        Err(e) => Err(e),
                        Ok((_, s4)) => match p_type(t, s4) {
                            Err(e) => Err(e),
                            Ok((value, s5)) => match p_expect(t, s5, Token::RAngle) {
                                Err(e) => Err(e),
                                Ok((_, s6)) => Ok((TypeRef::KeyMap { key, value: Box::new(value) }, s6)),
                            },
                        },
                    },
                },
            }
        } else {
            match p_type_suffix(t, s1, name@) {
                Err(e) => Err(e),
                Ok((full, s2)) => if tok(t, s1) is Dot {
                    Ok((TypeRef::Named(string_of(full)), s2))
                } else {
                    Ok((TypeRef::Named(name), s2))
                },
            }
        }
    } else {
        Err(ParseError::ExpectedType { line: here(t, st).0, col: here(t, st).1, got: tk })
    }
}


/// Enum cases, up to and including `}`.
pub open spec fn p_enum_cases(t: Seq<Spanned>, st: PState, acc: Seq<EnumCaseV>) -> PResult<Seq<EnumCaseV>>
    decreases t.len() - st.0,
{
    let tk = tok(t, st);
    if tk is RBrace {
        Ok((acc, next(t, st)))
    } else if tk is Ident {
        let s1 = next(t, st);
        match p_tags(t, s1, s1.1) {
            Err(e) => Err(e),
            Ok((tags, s2)) => match p_comma_or_close(t, s2) {
                Err(e) => Err(e),
                Ok((_, s3)) => if progressed(t, st, s3) {
                    p_enum_cases(t, s3, acc.push(EnumCaseV { name: tk->Ident_0, tags }))
                } else {
                    Ok((acc, s3))
                },
            },
        }
    } else {
        Err(ParseError::ExpectedCase { line: here(t, st).0, col: here(t, st).1, got: tk })
    }
}

/// The name, tags and `{` that open an enum, variant, struct or protocol.
pub open spec fn p_def_head(t: Seq<Spanned>, st: PState) -> PResult<(String, Seq<Tag>)> {
    match p_ident(t, st) {
        Err(e) => Err(e),
        Ok((name, s1)) => match p_tags(t, s1, s1.1) {
            Err(e) => Err(e),
            Ok((tags, s2)) => match p_expect(t, s2, Token::LBrace) {
                Err(e) => Err(e),
                Ok((_, s3)) => Ok(((name, tags), s3)),
            },
        },
    }
}

pub open spec fn p_enum(t: Seq<Spanned>, st: PState, private: bool) -> PResult<EnumDefV> {
    match p_def_head(t, st) {
        Err(e) => Err(e),
        Ok(((name, tags), s3)) => match p_enum_cases(t, s3, Seq::empty()) {
            Err(e) => Err(e),
            Ok((cases, s4)) => Ok((EnumDefV { name, tags, cases, private }, opt_semicolon(t, s4))),
        },
    }
}

/// Variant cases `Name = type tags`, up to and including `}`.
pub open spec fn p_variant_cases(t: Seq<Spanned>, st: PState, acc: Seq<VariantCaseV>) -> PResult<Seq<VariantCaseV>>
    decreases t.len() - st.0,
{
    let tk = tok(t, st);
    if tk is RBrace {
        Ok((acc, next(t, st)))
    } else if tk is Ident {
        match p_expect(t, next(t, st), Token::Equals) {
            Err(e) => Err(e),
            Ok((_, s2)) => match p_type(t, s2) {
                Err(e) => Err(e),
                Ok((ty, s3)) => match p_tags(t, s3, s3.1) {
                    Err(e) => Err(e),
                    Ok((tags, s4)) => match p_comma_or_close(t, s4) {
                        Err(e) => Err(e),
                        Ok((_, s5)) => if progressed(t, st, s5) {
                            p_variant_cases(t, s5, acc.push(VariantCaseV { name: tk->Ident_0, ty, tags, line: here(t, st).0 }))
                        } else {
                            Ok((acc, s5))
                        },
                    },
                },
            },
        }
    } else {
        Err(ParseError::ExpectedCase { line: here(t, st).0, col: here(t, st).1, got: tk })
    }
}

pub open spec fn p_variant(t: Seq<Spanned>, st: PState, private: bool) -> PResult<VariantDefV> {
    match p_def_head(t, st) {
        Err(e) => Err(e),
        Ok(((name, tags), s3)) => match p_variant_cases(t, s3, Seq::empty()) {
            Err(e) => Err(e),
            Ok((cases, s4)) => Ok((VariantDefV { name, tags, cases, private }, opt_semicolon(t, s4))),
        },
    }
}

/// Field names listed in `@exclude(Base, [...])`, up to and including `]`.
pub open spec fn p_excluded(t: Seq<Spanned>, st: PState, acc: Seq<String>) -> PResult<Seq<String>>
    decreases t.len() - st.0,
{
    let tk = tok(t, st);
    if tk is RBracket {
        Ok((acc, next(t, st)))
    } else if tk is StringLit && 0 <= st.0 < t.len() {
        p_excluded(t, opt_comma(t, next(t, st)), acc.push(tk->StringLit_0))
    } else {
        Err(ParseError::ExpectedExcludedName { line: here(t, st).0, col: here(t, st).1, got: tk })
    }
}

/// The source after `copy`: a struct name or `@exclude(...)`.
pub open spec fn p_struct_source(t: Seq<Spanned>, st: PState) -> PResult<StructSourceV> {
    let tk = tok(t, st);
    if tk is At {
        match p_ident(t, next(t, st)) {
            Err(e) => Err(e),
            Ok((op, s2)) => if op@ == "exclude"@ {
                match p_expect(t, s2, Token::LParen) {
                    Err(e) => Err(e),
                    Ok((_, s3)) => match p_ident(t, s3) {
                        Err(e) => Err(e),
                        Ok((base, s4)) => match p_expect(t, s4, Token::Comma) {
                            Err(e) => Err(e),
                            Ok((_, s5)) => match p_expect(t, s5, Token::LBracket) {
                                Err(e) => Err(e),
                                Ok((_, s6)) => match p_excluded(t, s6, Seq::empty()) {
                                    Err(e) => Err(e),
                                    Ok((exclude, s7)) => match p_expect(t, s7, Token::RParen) {
                                        Err(e) => Err(e),
                                        Ok((_, s8)) => Ok((StructSourceV::Exclude { base, exclude }, s8)),
                                    },
                                },
                            },
                        },
                    },
                }
            } else {
                Err(ParseError::UnknownOp { line: here(t, st).0, col: here(t, st).1, op })
            },
        }
    } else if tk is Ident {
        Ok((StructSourceV::Named { name: tk->Ident_0 }, next(t, st)))
    } else {
        Err(ParseError::ExpectedCopySource { line: here(t, st).0, col: here(t, st).1, got: tk })
    }
}

/// `$s haskey $k` checks of a `for` body, up to and including `}`.
pub open spec fn p_for_body(t: Seq<Spanned>, st: PState, acc: Seq<AssertionStmtV>) -> PResult<Seq<AssertionStmtV>>
    decreases t.len() - st.0,
{
    let tk = tok(t, st);
    if tk is RBrace {
        Ok((acc, next(t, st)))
    } else if tk is Dollar {
        match p_dollar_ident(t, st) {
            Err(e) => Err(e),
            Ok((subject, s1)) => match p_ident(t, s1) {
                Err(e) => Err(e),
                Ok((check, s2)) => if check@ == "haskey"@ {
                    match p_dollar_ident(t, s2) {
                        Err(e) => Err(e),
                        Ok((key, s3)) => if progressed(t, st, s3) {
                            p_for_body(t, s3, acc.push(AssertionStmtV::HasKey { subject, key, line: here(t, st).0 }))
                        } else {
                            Ok((acc, s3))
                        },
                    }
                } else {
                    Err(ParseError::UnknownCheck { line: here(t, s1).0, col: here(t, s1).1, got: check })
                },
            },
        }
    } else {
        Err(ParseError::ExpectedCheckOrClose { line: here(t, st).0, col: here(t, st).1, got: tk })
    }
}

/// A `for $v in Enum { ... }` statement after its `for`.
pub open spec fn p_assertion_for(t: Seq<Spanned>, st: PState) -> PResult<AssertionStmtV> {
    match p_dollar_ident(t, st) {
        Err(e) => Err(e),
        Ok((var, s1)) => match p_ident(t, s1) {
            Err(e) => Err(e),
            Ok((kw, s2)) => if kw@ != "in"@ {
                Err(ParseError::ExpectedIn { line: here(t, s1).0, col: here(t, s1).1, got: kw })
            } else {
                match p_ident(t, s2) {
                    Err(e) => Err(e),
                    Ok((source, s3)) => match p_expect(t, s3, Token::LBrace) {
                        Err(e) => Err(e),
                        Ok((_, s4)) => match p_for_body(t, s4, Seq::empty()) {
                            Err(e) => Err(e),
                            Ok((body, s5)) => Ok((AssertionStmtV::ForIn { var, source, body, line: st.1 as usize }, s5)),
                        },
                    },
                }
            },
        },
    }
}

/// Statements of an assertion body, up to and including `}`.
pub open spec fn p_body_stmts(t: Seq<Spanned>, st: PState, acc: Seq<AssertionStmtV>) -> PResult<Seq<AssertionStmtV>>
    decreases t.len() - st.0,
{
    let tk = tok(t, st);
    if tk is RBrace {
        Ok((acc, next(t, st)))
    } else if tk is Ident && tk->Ident_0@ == "for"@ {
        match p_assertion_for(t, next(t, st)) {
            Err(e) => Err(e),
            Ok((stmt, s2)) => if progressed(t, st, s2) {
                p_body_stmts(t, s2, acc.push(stmt))
            } else {
                Ok((acc, s2))
            },
        }
    } else {
        Err(ParseError::ExpectedForOrClose { line: here(t, st).0, col: here(t, st).1, got: tk })
    }
}

pub open spec fn p_assertion_body(t: Seq<Spanned>, st: PState) -> PResult<Seq<AssertionStmtV>> {
    match p_expect(t, st, Token::LBrace) {
        Err(e) => Err(e),
        Ok((_, s1)) => p_body_stmts(t, s1, Seq::empty()),
    }
}

/// What follows `assert` at `line`/`col`: `($s) { ... }` or an assertion name.
pub open spec fn p_assert_ref(t: Seq<Spanned>, st: PState, line: usize, col: usize) -> PResult<AssertRefV> {
    let tk = tok(t, st);
    if tk is LParen {
        match p_dollar_ident(t, next(t, st)) {
            Err(e) => Err(e),
            Ok((param, s2)) => match p_expect(t, s2, Token::RParen) {
                Err(e) => Err(e),
                Ok((_, s3)) => match p_assertion_body(t, s3) {
                    Err(e) => Err(e),
                    Ok((body, s4)) => Ok((AssertRefV::Inline { param, body, line }, s4)),
                },
            },
        }
    } else if tk is Ident {
        Ok((AssertRefV::Named { name: tk->Ident_0, line }, next(t, st)))
    } else {
        Err(ParseError::ExpectedAssertRef { line, col, got: tk })
    }
}

/// `assertion Name (struct $s) { ... }` after its `assertion`.
pub open spec fn p_assertion_def(t: Seq<Spanned>, st: PState) -> PResult<AssertionDefV> {
    match p_ident(t, st) {
        Err(e) => Err(e),
        Ok((name, s1)) => match p_expect(t, s1, Token::LParen) {
            Err(e) => Err(e),
            Ok((_, s2)) => match p_ident(t, s2) {
                Err(e) => Err(e),
                Ok((kind, s3)) => if kind@ != "struct"@ {
                    Err(ParseError::AssertionParamKind { line: here(t, s2).0, col: here(t, s2).1, got: kind })
                } else {
                    match p_dollar_ident(t, s3) {
                        Err(e) => Err(e),
                        Ok((param, s4)) => match p_expect(t, s4, Token::RParen) {
                            Err(e) => Err(e),
                            Ok((_, s5)) => match p_assertion_body(t, s5) {
                                Err(e) => Err(e),
                                Ok((body, s6)) => Ok((AssertionDefV { name, param, body }, opt_semicolon(t, s6))),
                            },
                        },
                    }
                },
            },
        },
    }
}

/// A field name, possibly qualified as `Enum.case`, after its first identifier `first`.
pub open spec fn p_field_name(t: Seq<Spanned>, st: PState, first: String) -> PResult<String> {
    if tok(t, st) is Dot {
        match p_ident(t, next(t, st)) {
            Err(e) => Err(e),
            Ok((part, s2)) => Ok((dotted(first, part), s2)),
        }
    } else {
        Ok((first, st))
    }
}

/// What a struct body has gathered so far: copies, fields, assertions.
pub type StructParts = (Seq<StructSourceV>, Seq<StructFieldV>, Seq<AssertRefV>);

/// The members of a struct body, up to and including `}`.
pub open spec fn p_struct_members(t: Seq<Spanned>, st: PState, acc: StructParts) -> PResult<StructParts>
    decreases t.len() - st.0,
{
    let tk = tok(t, st);
    let (line, col) = here(t, st);
    if tk is RBrace {
        Ok((acc, next(t, st)))
    } else if tk is Ident && tk->Ident_0@ == "copy"@ {
        if acc.1.len() != 0 {
            Err(ParseError::CopyAfterField { line, col })
        } else {
            match p_struct_source(t, next(t, st)) {
                Err(e) => Err(e),
                Ok((source, s2)) => match p_comma_or_close(t, s2) {
                    Err(e) => Err(e),
                    Ok((_, s3)) => if progressed(t, st, s3) {
                        p_struct_members(t, s3, (acc.0.push(source), acc.1, acc.2))
                    } else {
                        Ok((acc, s3))
                    },
                },
            }
        }
    } else if tk is Ident && tk->Ident_0@ == "assert"@ {
        match p_assert_ref(t, next(t, st), line, col) {
            Err(e) => Err(e),
            Ok((a, s2)) => {
                let s3 = opt_comma(t, s2);
                if progressed(t, st, s3) {
                    p_struct_members(t, s3, (acc.0, acc.1, acc.2.push(a)))
                } else {
                    Ok((acc, s3))
                }
            },
        }
    } else if tk is Ident {
        match p_field_name(t, next(t, st), tk->Ident_0) {
            Err(e) => Err(e),
            Ok((name, s2)) => match p_expect(t, s2, Token::Equals) {
                Err(e) => Err(e),
                Ok((_, s3)) => match p_type(t, s3) {
                    Err(e) => Err(e),
                    Ok((ty, s4)) => match p_tags(t, s4, s4.1) {
                        Err(e) => Err(e),
                        Ok((tags, s5)) => match p_comma_or_close(t, s5) {
                            Err(e) => Err(e),
                            Ok((_, s6)) => if progressed(t, st, s6) {
                                p_struct_members(t, s6, (acc.0, acc.1.push(StructFieldV { name, ty, tags, line }), acc.2))
                            } else {
                                Ok((acc, s6))
                            },
                        },
                    },
                },
            },
        }
    } else {
        Err(ParseError::ExpectedStructMember { line, col, got: tk })
    }
}

pub open spec fn p_struct(t: Seq<Spanned>, st: PState, private: bool) -> PResult<StructDefV> {
    match p_def_head(t, st) {
        Err(e) => Err(e),
        Ok(((name, tags), s3)) => match p_struct_members(t, s3, (Seq::empty(), Seq::empty(), Seq::empty())) {
            Err(e) => Err(e),
            Ok(((copies, fields, asserts), s4)) =>
                Ok((StructDefV { name, tags, copies, fields, asserts, private }, opt_semicolon(t, s4))),
        },
    }
}

/// A constant expression.
pub open spec fn p_expr(t: Seq<Spanned>, st: PState) -> PResult<ExprV>
    decreases t.len() - st.0, 2int,
{
    let tk = tok(t, st);
    let (line, col) = here(t, st);
    if !(0 <= st.0 < t.len()) {
        Err(ParseError::ExpectedExpr { line, col, got: tk })
    } else if tk is StringLit {
        Ok((ExprV::Str { value: tk->StringLit_0 }, next(t, st)))
    } else if tk is NumberLit {
        Ok((ExprV::Number { value: tk->NumberLit_0 }, next(t, st)))
    } else if tk is BoolLit {
        Ok((ExprV::Bool { value: tk->BoolLit_0 }, next(t, st)))
    } else if tk is Ident && tk->Ident_0@ == "null"@ {
        Ok((ExprV::Null, next(t, st)))
    } else if tk is Ident {
        let first = tk->Ident_0;
        let s1 = next(t, st);
        let qualified: Result<(Option<String>, PState), ParseError> = if tok(t, s1) is Dot {
            match p_ident(t, next(t, s1)) {
                Err(e) => Err(e),
                Ok((second, s3)) => Ok((Some(second), s3)),
            }
        } else {
            Ok((None, s1))
        };
        match qualified {
            Err(e) => Err(e),
            Ok((maybe_case, s3)) => if tok(t, s3) is LBrace && st.0 < s3.0 {
                let full_ty = match maybe_case {
                    Some(part) => dotted(first, part),
                    None => first,
                };
                match p_expr_fields(t, s3) {
                    Err(e) => Err(e),
                    Ok((fields, s4)) => Ok((ExprV::Struct { ty: full_ty, fields }, s4)),
                }
            } else {
                match maybe_case {
                    Some(case) => Ok((ExprV::EnumCase { ty: first, case }, s3)),
                    None => Err(ParseError::ExpectedBraceOrCase { line, col }),
                }
            },
        }
    } else {
        Err(ParseError::ExpectedExpr { line, col, got: tk })
    }
}

/// `{ name = expr, ... }` of a struct literal.
pub open spec fn p_expr_fields(t: Seq<Spanned>, st: PState) -> PResult<Seq<ExprFieldV>>
    decreases t.len() - st.0, 1int,
{
    match p_expect(t, st, Token::LBrace) {
        Err(e) => Err(e),
        Ok((_, s1)) => p_expr_field_list(t, s1, Seq::empty()),
    }
}

/// Fields of a struct literal, up to and including `}`.
pub open spec fn p_expr_field_list(t: Seq<Spanned>, st: PState, acc: Seq<ExprFieldV>) -> PResult<Seq<ExprFieldV>>
    decreases t.len() - st.0, 0int,
{
    let tk = tok(t, st);
    if tk is RBrace {
        Ok((acc, next(t, st)))
    } else if tk is Ident && 0 <= st.0 < t.len() {
        match p_field_name(t, next(t, st), tk->Ident_0) {
            Err(e) => Err(e),
            Ok((name, s2)) => match p_expect(t, s2, Token::Equals) {
                Err(e) => Err(e),
                Ok((_, s3)) => if st.0 < s3.0 {
                    match p_expr(t, s3) {
                        Err(e) => Err(e),
                        Ok((value, s4)) => match p_comma_or_close(t, s4) {
                            Err(e) => Err(e),
                            Ok((_, s5)) => if progressed(t, st, s5) {
                                p_expr_field_list(t, s5, acc.push(ExprFieldV { name, value }))
                            } else {
                                Ok((acc, s5))
                            },
                        },
                    }
                } else {
                    Ok((acc, s3))
                },
            },
        }
    } else {
        Err(ParseError::ExpectedLiteralField { line: here(t, st).0, col: here(t, st).1, got: tk })
    }
}

pub open spec fn p_const(t: Seq<Spanned>, st: PState) -> PResult<ConstDefV> {
    match p_ident(t, st) {
        Err(e) => Err(e),
        Ok((name, s1)) => match p_expect(t, s1, Token::Equals) {
            Err(e) => Err(e),
            Ok((_, s2)) => match p_expr(t, s2) {
                Err(e) => Err(e),
                Ok((value, s3)) => Ok((ConstDefV { name, value }, opt_semicolon(t, s3))),
            },
        },
    }
}

/// The endpoints of a protocol, up to and including `}`.
pub open spec fn p_endpoints(t: Seq<Spanned>, st: PState, acc: Seq<EndpointV>) -> PResult<Seq<EndpointV>>
    decreases t.len() - st.0,
{
    let tk = tok(t, st);
    if tk is RBrace {
        Ok((acc, next(t, st)))
    } else if tk is StringLit {
        let s1 = next(t, st);
        match p_tags(t, s1, s1.1) {
            Err(e) => Err(e),
            Ok((tags, s2)) => match p_expect(t, s2, Token::LAngle) {
                Err(e) => Err(e),
                Ok((_, s3)) => match p_type(t, s3) {
                    Err(e) => Err(e),
                    Ok((request, s4)) => match p_expect(t, s4, Token::Comma) {
                        Err(e) => Err(e),
                        Ok((_, s5)) => match p_type(t, s5) {
                            Err(e) => Err(e),
                            Ok((response, s6)) => {
                                let err: Result<(Option<TypeRef>, PState), ParseError> = if tok(t, s6) is Bang {
                                    match p_type(t, next(t, s6)) {
                                        Err(e) => Err(e),
                                        Ok((ty, s7)) => Ok((Some(ty), s7)),
                                    }
                                } else {
                                    Ok((None, s6))
                                };
                                match err {
                                    Err(e) => Err(e),
                                    Ok((error, s7)) => match p_expect(t, s7, Token::RAngle) {
                                        Err(e) => Err(e),
                                        Ok((_, s8)) => match p_comma_or_close(t, s8) {
                                            Err(e) => Err(e),
                                            Ok((_, s9)) => {
                                                let ep = EndpointV { name: tk->StringLit_0, tags, request, response, error, line: here(t, st).0 };
                                                if progressed(t, st, s9) {
                                                    p_endpoints(t, s9, acc.push(ep))
                                                } else {
                                                    Ok((acc, s9))
                                                }
                                            },
                                        },
                                    },
                                }
                            },
                        },
                    },
                },
            },
        }
    } else {
        Err(ParseError::ExpectedEndpoint { line: here(t, st).0, col: here(t, st).1, got: tk })
    }
}

pub open spec fn p_protocol(t: Seq<Spanned>, st: PState, private: bool) -> PResult<ProtocolDefV> {
    match p_def_head(t, st) {
        Err(e) => Err(e),
        Ok(((name, tags), s3)) => match p_endpoints(t, s3, Seq::empty()) {
            Err(e) => Err(e),
            Ok((endpoints, s4)) => Ok((ProtocolDefV { name, tags, endpoints, private }, opt_semicolon(t, s4))),
        },
    }
}

/// The definition named by `keyword` (read at `line`/`col`), from after the keyword.
pub open spec fn p_definition_body(t: Seq<Spanned>, st: PState, private: bool, line: usize, col: usize, keyword: String) -> PResult<DefinitionV> {
    if keyword@ == "enum"@ {
        match p_enum(t, st, private) { Err(e) => Err(e), Ok((d, s)) => Ok((DefinitionV::Enum(d), s)) }
    } else if keyword@ == "variant"@ {
        match p_variant(t, st, private) { Err(e) => Err(e), Ok((d, s)) => Ok((DefinitionV::Variant(d), s)) }
    } else if keyword@ == "struct"@ {
        match p_struct(t, st, private) { Err(e) => Err(e), Ok((d, s)) => Ok((DefinitionV::Struct(d), s)) }
    } else if keyword@ == "protocol"@ {
        match p_protocol(t, st, private) { Err(e) => Err(e), Ok((d, s)) => Ok((DefinitionV::Protocol(d), s)) }
    } else if keyword@ == "const"@ {
        if private {
            Err(ParseError::PrivateConst { line, col })
        } else {
            match p_const(t, st) { Err(e) => Err(e), Ok((d, s)) => Ok((DefinitionV::Const(d), s)) }
        }
    } else {
        Err(ParseError::UnknownDefinition { line, col, private, got: keyword })
    }
}

/// A definition, possibly preceded by `private`.
pub open spec fn p_definition(t: Seq<Spanned>, st: PState) -> PResult<DefinitionV> {
    match p_ident(t, st) {
        Err(e) => Err(e),
        Ok((first, s1)) => if first@ == "private"@ {
            match p_ident(t, s1) {
                Err(e) => Err(e),
                Ok((kw, s2)) => p_definition_body(t, s2, true, here(t, s1).0, here(t, s1).1, kw),
            }
        } else {
            p_definition_body(t, s1, false, here(t, st).0, here(t, st).1, first)
        },
    }
}

/// The items of a file from the position on, added to those in `acc`.
pub open spec fn p_items(t: Seq<Spanned>, st: PState, acc: FileV) -> PResult<FileV>
    decreases t.len() - st.0,
{
    let tk = tok(t, st);
    if tk is Eof {
        Ok((acc, st))
    } else if tk is Bang {
        match p_enforcer(t, next(t, st)) {
            Err(e) => Err(e),
            Ok((en, s2)) => if progressed(t, st, s2) {
                p_items(t, s2, FileV { enforcers: acc.enforcers.push(en), ..acc })
            } else {
                Ok((acc, s2))
            },
        }
    } else if tk is At {
        match p_import(t, next(t, st)) {
            Err(e) => Err(e),
            Ok((im, s2)) => if progressed(t, st, s2) {
                p_items(t, s2, FileV { imports: acc.imports.push(im), ..acc })
            } else {
                Ok((acc, s2))
            },
        }
    } else if tk is Ident && tk->Ident_0@ == "assertion"@ {
        match p_assertion_def(t, next(t, st)) {
            Err(e) => Err(e),
            Ok((ad, s2)) => if progressed(t, st, s2) {
                p_items(t, s2, FileV { assertion_defs: acc.assertion_defs.push(ad), ..acc })
            } else {
                Ok((acc, s2))
            },
        }
    } else {
        match p_definition(t, st) {
            Err(e) => Err(e),
            Ok((d, s2)) => if progressed(t, st, s2) {
                p_items(t, s2, FileV { definitions: acc.definitions.push(d), ..acc })
            } else {
                Ok((acc, s2))
            },
        }
    }
}

/// The whole file that the tokens spell, reading from the first token.
pub open spec fn p_file(t: Seq<Spanned>) -> PResult<FileV> {
    p_items(t, (0, 1), FileV { enforcers: Seq::empty(), imports: Seq::empty(), definitions: Seq::empty(), assertion_defs: Seq::empty() })
}

} // verus!
