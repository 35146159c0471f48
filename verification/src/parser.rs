//! Reads a token sequence into the syntax tree of a WST file.
use vstd::prelude::*;
use crate::ast::{
    AssertRef, AssertionDef, AssertionStmt, ConstDef, Definition, Endpoint, EnumCase, EnumDef,
    Enforcer, Expr, ExprField, File, Import, ImportKind, Primitive, ProtocolDef, StructDef,
    StructField, StructSource, Tag, TagValue, TypeRef, VariantCase, VariantDef,
};
use crate::grammar::{
    PResult, PState, ParseError, StructParts, dotted, here, next, opt_comma, opt_semicolon, p_assert_ref, p_assertion_body, p_assertion_def, p_assertion_for, p_body_stmts, p_bracket_tags, p_comma_or_close, p_const, p_def_head, p_definition, p_definition_body, p_dollar_ident, p_endpoints, p_enforcer, p_enum, p_enum_cases, p_excluded, p_expect, p_expr, p_expr_field_list, p_expr_fields, p_field_name, p_file, p_for_body, p_ident, p_import, p_import_names, p_inline_tags, p_items, p_path, p_primitive, p_protocol, p_struct, p_struct_members, p_struct_source, p_tag, p_tags, p_type, p_type_suffix, p_variant, p_variant_cases, primitive_named, progressed, tok,
};
use crate::lexer::{Spanned, Token};
use crate::text::{chars_of, copy_string, push_char, string_from, string_of, text_is};
use crate::view::{
    AssertRefV, AssertionDefV, AssertionStmtV, ConstDefV, DefinitionV, EndpointV, EnumCaseV, EnumDefV, ExprFieldV, ExprV, FileV, ImportKindV, ImportV, ProtocolDefV, StructDefV, StructFieldV, StructSourceV, VariantCaseV, VariantDefV, expr_fields_view, expr_view, stmts_view,
};

verus! {

/// A number for each kind of token.
pub open spec fn kind_of(t: Token) -> u8 {
    match t {
        Token::Ident(_) => 0,
        Token::StringLit(_) => 1,
        Token::NumberLit(_) => 2,
        Token::BoolLit(_) => 3,
        Token::Hash => 4,
        Token::Colon => 5,
        Token::Equals => 6,
        Token::Comma => 7,
        Token::Semicolon => 8,
        Token::LBrace => 9,
        Token::RBrace => 10,
        Token::LAngle => 11,
        Token::RAngle => 12,
        Token::LBracket => 13,
        Token::RBracket => 14,
        Token::LParen => 15,
        Token::RParen => 16,
        Token::Dollar => 17,
        Token::Bang => 18,
        Token::At => 19,
        Token::Caret => 20,
        Token::Star => 21,
        Token::Dot => 22,
        Token::Slash => 23,
        Token::Eof => 24,
    }
}

/// A token that carries no text or value.
pub open spec fn fieldless(t: Token) -> bool {
    kind_of(t) >= 4
}

fn kind(t: &Token) -> (r: u8)
    ensures
        r == kind_of(*t),
{
    match t {
        Token::Ident(_) => 0,
        Token::StringLit(_) => 1,
        Token::NumberLit(_) => 2,
        Token::BoolLit(_) => 3,
        Token::Hash => 4,
        Token::Colon => 5,
        Token::Equals => 6,
        Token::Comma => 7,
        Token::Semicolon => 8,
        Token::LBrace => 9,
        Token::RBrace => 10,
        Token::LAngle => 11,
        Token::RAngle => 12,
        Token::LBracket => 13,
        Token::RBracket => 14,
        Token::LParen => 15,
        Token::RParen => 16,
        Token::Dollar => 17,
        Token::Bang => 18,
        Token::At => 19,
        Token::Caret => 20,
        Token::Star => 21,
        Token::Dot => 22,
        Token::Slash => 23,
        Token::Eof => 24,
    }
}

/// A copy of a token.
pub fn copy_token(t: &Token) -> (r: Token)
    ensures
        r == *t,
{
    match t {
        Token::Ident(s) => Token::Ident(copy_string(s)),
        Token::StringLit(s) => Token::StringLit(copy_string(s)),
        Token::NumberLit(s) => Token::NumberLit(copy_string(s)),
        Token::BoolLit(b) => Token::BoolLit(*b),
        Token::Hash => Token::Hash,
        Token::Colon => Token::Colon,
        Token::Equals => Token::Equals,
        Token::Comma => Token::Comma,
        Token::Semicolon => Token::Semicolon,
        Token::LBrace => Token::LBrace,
        Token::RBrace => Token::RBrace,
        Token::LAngle => Token::LAngle,
        Token::RAngle => Token::RAngle,
        Token::LBracket => Token::LBracket,
        Token::RBracket => Token::RBracket,
        Token::LParen => Token::LParen,
        Token::RParen => Token::RParen,
        Token::Dollar => Token::Dollar,
        Token::Bang => Token::Bang,
        Token::At => Token::At,
        Token::Caret => Token::Caret,
        Token::Star => Token::Star,
        Token::Dot => Token::Dot,
        Token::Slash => Token::Slash,
        Token::Eof => Token::Eof,
    }
}

/// The result `r` agrees with the reading `s`, and the parser stands at `after`.
pub open spec fn agrees<T: View>(r: Result<T, ParseError>, s: PResult<T::V>, after: PState) -> bool {
    match s {
        Ok((v, st)) => r is Ok && r->Ok_0@ == v && after == st,
        Err(e) => r == Err::<T, ParseError>(e),
    }
}

/// Like `agrees`, for results that are their own view.
pub open spec fn agrees_exactly<T>(r: Result<T, ParseError>, s: PResult<T>, after: PState) -> bool {
    match s {
        Ok((v, st)) => r == Ok::<T, ParseError>(v) && after == st,
        Err(e) => r == Err::<T, ParseError>(e),
    }
}

/// Reads a token sequence.
pub struct Parser {
    tokens: Vec<Spanned>,
    pos: usize,
    last_line: usize,
}

impl Parser {
    /// The tokens being read.
    pub closed spec fn tokens(&self) -> Seq<Spanned> {
        self.tokens@
    }

    /// The reading position.
    pub closed spec fn state(&self) -> PState {
        (self.pos as int, self.last_line as int)
    }

    /// The position stays within the tokens.
    pub closed spec fn wf(&self) -> bool {
        self.pos <= self.tokens.len()
    }

    /// `self` reads the same tokens as `before`, from no earlier position.
    pub closed spec fn moved_on(&self, before: Parser) -> bool {
        &&& self.wf()
        &&& self.tokens@ == before.tokens@
        &&& self.pos >= before.pos
    }

    /// A parser at the first token; the line of the last token read starts as 1.
    pub fn new(tokens: Vec<Spanned>) -> (r: Self)
        ensures
            r.wf(),
            r.tokens() == tokens@,
            r.state() == (0int, 1int),
    {
        Parser { tokens, pos: 0, last_line: 1 }
    }

    fn current_pos(&self) -> (r: (usize, usize))
        requires
            self.wf(),
        ensures
            r == here(self.tokens@, self.state()),
    {
        if self.pos < self.tokens.len() {
            (self.tokens[self.pos].1, self.tokens[self.pos].2)
        } else {
            (0, 0)
        }
    }

    fn peek(&self) -> (r: Token)
        requires
            self.wf(),
        ensures
            r == tok(self.tokens@, self.state()),
    {
        if self.pos < self.tokens.len() {
            copy_token(&self.tokens[self.pos].0)
        } else {
            Token::Eof
        }
    }

    /// Whether the current token is the fieldless token `k`.
    fn at(&self, k: &Token) -> (r: bool)
        requires
            self.wf(),
            fieldless(*k),
        ensures
            r == (tok(self.tokens@, self.state()) == *k),
    {
        let kk = kind(k);
        if self.pos < self.tokens.len() {
            kind(&self.tokens[self.pos].0) == kk
        } else {
            kk == 24
        }
    }

    fn advance(&mut self) -> (r: Token)
        requires
            old(self).wf(),
        ensures
            final(self).moved_on(*old(self)),
            final(self).state() == next(old(self).tokens@, old(self).state()),
            r == tok(old(self).tokens@, old(self).state()),
    {
        if self.pos < self.tokens.len() {
            let result = copy_token(&self.tokens[self.pos].0);
            self.last_line = self.tokens[self.pos].1;
            self.pos = self.pos + 1;
            result
        } else {
            Token::Eof
        }
    }

    fn expect_ident(&mut self) -> (r: Result<String, ParseError>)
        requires
            old(self).wf(),
        ensures
            final(self).moved_on(*old(self)),
            agrees_exactly(r, p_ident(old(self).tokens@, old(self).state()), final(self).state()),
    {
        let (line, col) = self.current_pos();
        match self.advance() {
            Token::Ident(s) => Ok(s),
            tok => Err(ParseError::ExpectedIdent { line, col, got: tok }),
        }
    }

    fn expect(&mut self, expected: Token) -> (r: Result<(), ParseError>)
        requires
            old(self).wf(),
            fieldless(expected),
        ensures
            final(self).moved_on(*old(self)),
            agrees_exactly(r, p_expect(old(self).tokens@, old(self).state(), expected), final(self).state()),
    {
        let (line, col) = self.current_pos();
        let same = self.at(&expected);
        let tok = self.advance();
        if same {
            Ok(())
        } else {
            Err(ParseError::ExpectedToken { line, col, expected, got: tok })
        }
    }

    /// Requires a comma between items; a `}` may follow the last one directly.
    fn expect_comma_or_close(&mut self) -> (r: Result<(), ParseError>)
        requires
            old(self).wf(),
        ensures
            final(self).moved_on(*old(self)),
            agrees_exactly(r, p_comma_or_close(old(self).tokens@, old(self).state()), final(self).state()),
    {
        let (line, col) = self.current_pos();
        if self.at(&Token::Comma) {
            self.advance();
            Ok(())
        } else if !self.at(&Token::RBrace) {
            Err(ParseError::ExpectedCommaOrClose { line, col, got: self.peek() })
        } else {
            Ok(())
        }
    }

    /// Expects `$identifier` and gives the identifier.
    fn expect_dollar_ident(&mut self) -> (r: Result<String, ParseError>)
        requires
            old(self).wf(),
        ensures
            final(self).moved_on(*old(self)),
            agrees_exactly(r, p_dollar_ident(old(self).tokens@, old(self).state()), final(self).state()),
    {
        match self.expect(Token::Dollar) {
            Ok(()) => {},
            Err(e) => return Err(e),
        }
        self.expect_ident()
    }

    /// Skips one `;` if it is next.
    fn skip_semicolon(&mut self)
        requires
            old(self).wf(),
        ensures
            final(self).moved_on(*old(self)),
            final(self).state() == opt_semicolon(old(self).tokens@, old(self).state()),
    {
        if self.at(&Token::Semicolon) {
            self.advance();
        }
    }

    /// Skips one `,` if it is next.
    fn skip_comma(&mut self)
        requires
            old(self).wf(),
        ensures
            final(self).moved_on(*old(self)),
            final(self).state() == opt_comma(old(self).tokens@, old(self).state()),
    {
        if self.at(&Token::Comma) {
            self.advance();
        }
    }
}

impl Parser {
    fn parse_tag(&mut self) -> (r: Result<Tag, ParseError>)
        requires
            old(self).wf(),
        ensures
            final(self).moved_on(*old(self)),
            agrees_exactly(r, p_tag(old(self).tokens@, old(self).state()), final(self).state()),
    {
        match self.expect(Token::Hash) {
            Ok(()) => {},
            Err(e) => return Err(e),
        }
        let first = match self.expect_ident() {
            Ok(s) => s,
            Err(e) => return Err(e),
        };
        let (namespace, name) = if self.at(&Token::Colon) {
            self.advance();
            let tag_name = match self.expect_ident() {
                Ok(s) => s,
                Err(e) => return Err(e),
            };
            (Some(first), tag_name)
        } else {
            (None, first)
        };
        let value = if self.at(&Token::Equals) {
            self.advance();
            let (line, col) = self.current_pos();
            match self.advance() {
                Token::StringLit(s) => TagValue::Str(s),
                Token::NumberLit(n) => TagValue::Number(n),
                Token::BoolLit(b) => TagValue::Bool(b),
                tok => return Err(ParseError::ExpectedTagValue { line, col, got: tok }),
            }
        } else {
            TagValue::Bool(true)
        };
        Ok(Tag { namespace, name, value })
    }

    fn parse_tags(&mut self, prev_line: usize) -> (r: Result<Vec<Tag>, ParseError>)
        requires
            old(self).wf(),
        ensures
            final(self).moved_on(*old(self)),
            agrees(r, p_tags(old(self).tokens@, old(self).state(), prev_line as int), final(self).state()),
    {
        let ghost t = self.tokens@;
        let mut tags: Vec<Tag> = Vec::new();
        if self.at(&Token::LBracket) {
            self.advance();
            let ghost start = self.state();
            let ghost first_pos = self.pos;
            while !self.at(&Token::RBracket) && !self.at(&Token::Eof)
                invariant
                    self.wf(),
                    self.tokens@ == t,
                    t == old(self).tokens@,
                    self.pos >= first_pos,
                    first_pos > old(self).pos,
                    p_bracket_tags(t, self.state(), tags@) == p_bracket_tags(t, start, Seq::empty()),
                    p_tags(t, old(self).state(), prev_line as int) == match p_bracket_tags(t, start, Seq::empty()) {
                        Err(e) => Err(e),
                        Ok((tg, s2)) => match p_expect(t, s2, Token::RBracket) {
                            Err(e) => Err(e),
                            Ok((_, s3)) => Ok((tg, s3)),
                        },
                    },
                decreases self.tokens.len() - self.pos,
            {
                let ghost before = self.state();
                let tag = match self.parse_tag() {
                    Ok(tag) => tag,
                    Err(e) => return Err(e),
                };
                tags.push(tag);
                assert(progressed(t, before, self.state())) by {
                    assert(tok(t, before) == Token::Hash || p_tag(t, before) is Err);
                };
            }
            match self.expect(Token::RBracket) {
                Ok(()) => {},
                Err(e) => return Err(e),
            }
            Ok(tags)
        } else {
            let ghost start = self.state();
            while self.at(&Token::Hash)
                invariant
                    self.wf(),
                    self.tokens@ == t,
                    t == old(self).tokens@,
                    self.pos >= old(self).pos,
                    p_inline_tags(t, self.state(), prev_line as int, tags@) == p_inline_tags(t, start, prev_line as int, Seq::empty()),
                    start == old(self).state(),
                    !(tok(t, start) is LBracket),
                decreases self.tokens.len() - self.pos,
            {
                let (tag_line, tag_col) = self.current_pos();
                if tag_line != prev_line {
                    return Err(ParseError::InlineTagLine { line: tag_line, col: tag_col });
                }
                let tag = match self.parse_tag() {
                    Ok(tag) => tag,
                    Err(e) => return Err(e),
                };
                tags.push(tag);
            }
            Ok(tags)
        }
    }

    fn parse_primitive(&mut self) -> (r: Result<Primitive, ParseError>)
        requires
            old(self).wf(),
        ensures
            final(self).moved_on(*old(self)),
            agrees_exactly(r, p_primitive(old(self).tokens@, old(self).state()), final(self).state()),
    {
        let (line, col) = self.current_pos();
        let name = match self.expect_ident() {
            Ok(s) => s,
            Err(e) => return Err(e),
        };
        match primitive_of(&name) {
            Some(p) => Ok(p),
            None => Err(ParseError::ExpectedPrimitive { line, col, got: name }),
        }
    }

    fn parse_type(&mut self) -> (r: Result<TypeRef, ParseError>)
        requires
            old(self).wf(),
        ensures
            final(self).moved_on(*old(self)),
            agrees_exactly(r, p_type(old(self).tokens@, old(self).state()), final(self).state()),
        decreases old(self).tokens@.len() - old(self).pos,
    {
        let ghost t = self.tokens@;
        let (line, col) = self.current_pos();
        match self.peek() {
            Token::Ident(name) => {
                self.advance();
                if let Some(p) = primitive_of(&name) {
                    Ok(TypeRef::Primitive(p))
                } else if text_is(&name, "vec") {
                    match self.expect(Token::LAngle) {
                        Ok(()) => {},
                        Err(e) => return Err(e),
                    }
                    let inner = match self.parse_type() {
                        Ok(ty) => ty,
                        Err(e) => return Err(e),
                    };
                    match self.expect(Token::RAngle) {
                        Ok(()) => {},
                        Err(e) => return Err(e),
                    }
                    Ok(TypeRef::Vec(Box::new(inner)))
                } else if text_is(&name, "map") {
                    match self.expect(Token::LAngle) {
                        Ok(()) => {},
                        Err(e) => return Err(e),
                    }
                    let key = match self.parse_primitive() {
                        Ok(p) => p,
                        Err(e) => return Err(e),
                    };
                    match self.expect(Token::Comma) {
                        Ok(()) => {},
                        Err(e) => return Err(e),
                    }
                    let value = match self.parse_type() {
                        Ok(ty) => ty,
                        Err(e) => return Err(e),
                    };
                    match self.expect(Token::RAngle) {
                        Ok(()) => {},
                        Err(e) => return Err(e),
                    }
                    Ok(TypeRef::KeyMap { key, value: Box::new(value) })
                } else if !self.at(&Token::Dot) {
                    Ok(TypeRef::Named(name))
                } else {
                    let ghost s1 = self.state();
                    let mut full = chars_of(name.as_str());
                    while self.at(&Token::Dot)
                        invariant
                            self.wf(),
                            self.tokens@ == t,
                            t == old(self).tokens@,
                            self.pos > old(self).pos,
                            p_type_suffix(t, self.state(), full@) == p_type_suffix(t, s1, name@),
                            tok(t, s1) is Dot,
                            p_type(t, old(self).state()) == match p_type_suffix(t, s1, name@) {
                                Err(e) => Err(e),
                                Ok((f, s2)) => Ok((TypeRef::Named(string_of(f)), s2)),
                            },
                        decreases self.tokens.len() - self.pos,
                    {
                        self.advance();
                        let part = match self.expect_ident() {
                            Ok(s) => s,
                            Err(e) => return Err(e),
                        };
                        let ghost before = full@;
                        full.push('.');
                        let pc = chars_of(part.as_str());
                        let mut i: usize = 0;
                        while i < pc.len()
                            invariant
                                i <= pc.len(),
                                full@ == before.push('.') + pc@.subrange(0, i as int),
                            decreases pc.len() - i,
                        {
                            full.push(pc[i]);
                            i = i + 1;
                        }
                        assert(pc@.subrange(0, pc.len() as int) == pc@);
                        assert(full@ =~= before + seq!['.'] + part@);
                    }
                    Ok(TypeRef::Named(string_from(&full)))
                }
            },
            other => Err(ParseError::ExpectedType { line, col, got: other }),
        }
    }
}

/// The primitive type that `name` spells, if any.
fn primitive_of(name: &String) -> (r: Option<Primitive>)
    ensures
        r == primitive_named(name@),
{
    if text_is(name, "int32") {
        Some(Primitive::Int32)
    } else if text_is(name, "int64") {
        Some(Primitive::Int64)
    } else if text_is(name, "uin64") {
        Some(Primitive::Uin64)
    } else if text_is(name, "flt64") {
        Some(Primitive::Flt64)
    } else if text_is(name, "boolean") {
        Some(Primitive::Boolean)
    } else if text_is(name, "string") {
        Some(Primitive::Str)
    } else {
        None
    }
}

/// `a.b` as a new string.
fn join_dotted(a: &String, b: &String) -> (r: String)
    ensures
        r == dotted(*a, *b),
{
    let mut v = chars_of(a.as_str());
    let ghost before = v@;
    v.push('.');
    let bc = chars_of(b.as_str());
    let mut i: usize = 0;
    while i < bc.len()
        invariant
            i <= bc.len(),
            v@ == before.push('.') + bc@.subrange(0, i as int),
        decreases bc.len() - i,
    {
        v.push(bc[i]);
        i = i + 1;
    }
    assert(bc@.subrange(0, bc.len() as int) == bc@);
    assert(v@ =~= a@ + seq!['.'] + b@);
    string_from(&v)
}

impl Parser {
    fn parse_enforcer(&mut self) -> (r: Result<Enforcer, ParseError>)
        requires
            old(self).wf(),
        ensures
            final(self).moved_on(*old(self)),
            agrees_exactly(r, p_enforcer(old(self).tokens@, old(self).state()), final(self).state()),
    {
        let key = match self.expect_ident() {
            Ok(s) => s,
            Err(e) => return Err(e),
        };
        match self.expect(Token::Equals) {
            Ok(()) => {},
            Err(e) => return Err(e),
        }
        let value = match self.expect_ident() {
            Ok(s) => s,
            Err(e) => return Err(e),
        };
        match self.expect(Token::Semicolon) {
            Ok(()) => {},
            Err(e) => return Err(e),
        }
        Ok(Enforcer { key, value })
    }

    fn parse_path(&mut self) -> (r: Result<String, ParseError>)
        requires
            old(self).wf(),
        ensures
            final(self).moved_on(*old(self)),
            ({
                let (path, s2) = p_path(old(self).tokens@, old(self).state(), Seq::empty());
                if path.len() == 0 {
                    r == Err::<String, ParseError>(ParseError::MissingImportPath)
                } else {
                    r == Ok::<String, ParseError>(string_of(path)) && final(self).state() == s2
                }
            }),
    {
        let ghost t = self.tokens@;
        let ghost start = self.state();
        let mut path: Vec<char> = Vec::new();
        loop
            invariant
                self.wf(),
                self.tokens@ == t,
                t == old(self).tokens@,
                start == old(self).state(),
                self.pos >= old(self).pos,
                p_path(t, self.state(), path@) == p_path(t, start, Seq::empty()),
            decreases self.tokens.len() - self.pos,
        {
            match self.peek() {
                Token::Dot => {
                    path.push('.');
                    self.advance();
                },
                Token::Slash => {
                    path.push('/');
                    self.advance();
                },
                Token::Ident(s) => {
                    self.advance();
                    let sc = chars_of(s.as_str());
                    let ghost before = path@;
                    let mut i: usize = 0;
                    while i < sc.len()
                        invariant
                            i <= sc.len(),
                            path@ == before + sc@.subrange(0, i as int),
                        decreases sc.len() - i,
                    {
                        path.push(sc[i]);
                        i = i + 1;
                    }
                    assert(path@ =~= before + s@);
                },
                _ => {
                    if path.len() == 0 {
                        return Err(ParseError::MissingImportPath);
                    }
                    return Ok(string_from(&path));
                },
            }
        }
    }

    fn parse_import(&mut self) -> (r: Result<Import, ParseError>)
        requires
            old(self).wf(),
        ensures
            final(self).moved_on(*old(self)),
            agrees(r, p_import(old(self).tokens@, old(self).state()), final(self).state()),
    {
        let ghost t = self.tokens@;
        let keyword = match self.expect_ident() {
            Ok(s) => s,
            Err(e) => return Err(e),
        };
        if !text_is(&keyword, "import") {
            return Err(ParseError::ImportKeyword { got: keyword });
        }
        let path = match self.parse_path() {
            Ok(p) => p,
            Err(e) => return Err(e),
        };
        if self.at(&Token::Star) {
            self.advance();
            let name = match self.expect_ident() {
                Ok(s) => s,
                Err(e) => return Err(e),
            };
            match self.expect(Token::Semicolon) {
                Ok(()) => {},
                Err(e) => return Err(e),
            }
            return Ok(Import { path, kind: ImportKind::Namespace { name } });
        }
        let copy = if self.at(&Token::Caret) {
            self.advance();
            let kw = match self.expect_ident() {
                Ok(s) => s,
                Err(e) => return Err(e),
            };
            if !text_is(&kw, "copy") {
                return Err(ParseError::CopyKeyword { got: kw });
            }
            true
        } else {
            false
        };
        match self.expect(Token::LBrace) {
            Ok(()) => {},
            Err(e) => return Err(e),
        }
        let ghost s4 = self.state();
        let ghost before = *self;
        let mut types: Vec<String> = Vec::new();
        loop
            invariant_except_break
                p_import_names(t, self.state(), types@) == p_import_names(t, s4, Seq::empty()),
            invariant
                self.wf(),
                self.tokens@ == t,
                t == old(self).tokens@,
                self.pos >= before.pos,
                before.pos >= old(self).pos,
                p_import(t, old(self).state()) == match p_import_names(t, s4, Seq::empty()) {
                    Err(e) => Err(e),
                    Ok((types, s5)) => match p_expect(t, s5, Token::Semicolon) {
                        Err(e) => Err(e),
                        Ok((_, s6)) => Ok((ImportV { path, kind: ImportKindV::Named { copy, types } }, s6)),
                    },
                },
            ensures
                p_import_names(t, s4, Seq::empty()) == Ok::<(Seq<String>, PState), ParseError>((types@, self.state())),
            decreases self.tokens.len() - self.pos,
        {
            let (line, col) = self.current_pos();
            match self.peek() {
                Token::RBrace => {
                    self.advance();
                    break;
                },
                Token::Ident(name) => {
                    self.advance();
                    types.push(name);
                    self.skip_comma();
                },
                other => {
                    return Err(ParseError::ExpectedImportName { line, col, got: other });
                },
            }
        }
        match self.expect(Token::Semicolon) {
            Ok(()) => {},
            Err(e) => return Err(e),
        }
        Ok(Import { path, kind: ImportKind::Named { copy, types } })
    }
}

/// Like `agrees`, for a list read item by item.
pub open spec fn agrees_seq<T: View>(r: Result<Vec<T>, ParseError>, s: PResult<Seq<T::V>>, after: PState) -> bool {
    match s {
        Ok((v, st)) => r is Ok && r->Ok_0@.map_values(|x: T| x@) == v && after == st,
        Err(e) => r == Err::<Vec<T>, ParseError>(e),
    }
}

impl Parser {
    fn parse_def_head(&mut self) -> (r: Result<(String, Vec<Tag>), ParseError>)
        requires
            old(self).wf(),
        ensures
            final(self).moved_on(*old(self)),
            match p_def_head(old(self).tokens@, old(self).state()) {
                Ok(((n, tg), st)) => r is Ok && r->Ok_0.0 == n && r->Ok_0.1@ == tg && final(self).state() == st,
                Err(e) => r == Err::<(String, Vec<Tag>), ParseError>(e),
            },
    {
        let name = match self.expect_ident() {
            Ok(s) => s,
            Err(e) => return Err(e),
        };
        let tags = match self.parse_tags(self.last_line) {
            Ok(t) => t,
            Err(e) => return Err(e),
        };
        match self.expect(Token::LBrace) {
            Ok(()) => {},
            Err(e) => return Err(e),
        }
        Ok((name, tags))
    }

    fn parse_enum_cases(&mut self) -> (r: Result<Vec<EnumCase>, ParseError>)
        requires
            old(self).wf(),
        ensures
            final(self).moved_on(*old(self)),
            agrees_seq(r, p_enum_cases(old(self).tokens@, old(self).state(), Seq::empty()), final(self).state()),
    {
        let ghost t = self.tokens@;
        let ghost start = self.state();
        let mut cases: Vec<EnumCase> = Vec::new();
        let ghost mut sacc: Seq<EnumCaseV> = Seq::empty();
        loop
            invariant
                self.wf(),
                self.tokens@ == t,
                t == old(self).tokens@,
                start == old(self).state(),
                self.pos >= old(self).pos,
                p_enum_cases(t, self.state(), sacc) == p_enum_cases(t, start, Seq::empty()),
                cases@.len() == sacc.len(),
                forall|j: int| 0 <= j < sacc.len() ==> cases@[j]@ == sacc[j],
            decreases self.tokens.len() - self.pos,
        {
            let ghost before = self.state();
            let (line, col) = self.current_pos();
            match self.peek() {
                Token::RBrace => {
                    self.advance();
                    assert(cases@.map_values(|x: EnumCase| x@) =~= sacc);
                    return Ok(cases);
                },
                Token::Ident(case_name) => {
                    self.advance();
                    let tags = match self.parse_tags(self.last_line) {
                        Ok(t) => t,
                        Err(e) => return Err(e),
                    };
                    let ghost c = EnumCaseV { name: case_name, tags: tags@ };
                    cases.push(EnumCase { name: case_name, tags });
                    match self.expect_comma_or_close() {
                        Ok(()) => {},
                        Err(e) => return Err(e),
                    }
                    proof {
                        sacc = sacc.push(c);
                    }
                },
                other => {
                    return Err(ParseError::ExpectedCase { line, col, got: other });
                },
            }
        }
    }

    fn parse_enum(&mut self, private: bool) -> (r: Result<EnumDef, ParseError>)
        requires
            old(self).wf(),
        ensures
            final(self).moved_on(*old(self)),
            agrees(r, p_enum(old(self).tokens@, old(self).state(), private), final(self).state()),
    {
        let (name, tags) = match self.parse_def_head() {
            Ok(h) => h,
            Err(e) => return Err(e),
        };
        let cases = match self.parse_enum_cases() {
            Ok(c) => c,
            Err(e) => return Err(e),
        };
        self.skip_semicolon();
        Ok(EnumDef { name, tags, cases, private })
    }

    fn parse_variant_cases(&mut self) -> (r: Result<Vec<VariantCase>, ParseError>)
        requires
            old(self).wf(),
        ensures
            final(self).moved_on(*old(self)),
            agrees_seq(r, p_variant_cases(old(self).tokens@, old(self).state(), Seq::empty()), final(self).state()),
    {
        let ghost t = self.tokens@;
        let ghost start = self.state();
        let mut cases: Vec<VariantCase> = Vec::new();
        let ghost mut sacc: Seq<VariantCaseV> = Seq::empty();
        loop
            invariant
                self.wf(),
                self.tokens@ == t,
                t == old(self).tokens@,
                start == old(self).state(),
                self.pos >= old(self).pos,
                p_variant_cases(t, self.state(), sacc) == p_variant_cases(t, start, Seq::empty()),
                cases@.len() == sacc.len(),
                forall|j: int| 0 <= j < sacc.len() ==> cases@[j]@ == sacc[j],
            decreases self.tokens.len() - self.pos,
        {
            let (line, col) = self.current_pos();
            match self.peek() {
                Token::RBrace => {
                    self.advance();
                    assert(cases@.map_values(|x: VariantCase| x@) =~= sacc);
                    return Ok(cases);
                },
                Token::Ident(case_name) => {
                    self.advance();
                    match self.expect(Token::Equals) {
                        Ok(()) => {},
                        Err(e) => return Err(e),
                    }
                    let ty = match self.parse_type() {
                        Ok(t) => t,
                        Err(e) => return Err(e),
                    };
                    let tags = match self.parse_tags(self.last_line) {
                        Ok(t) => t,
                        Err(e) => return Err(e),
                    };
                    let ghost c = VariantCaseV { name: case_name, ty, tags: tags@, line };
                    cases.push(VariantCase { name: case_name, ty, tags, line });
                    match self.expect_comma_or_close() {
                        Ok(()) => {},
                        Err(e) => return Err(e),
                    }
                    proof {
                        sacc = sacc.push(c);
                    }
                },
                other => {
                    return Err(ParseError::ExpectedCase { line, col, got: other });
                },
            }
        }
    }

    fn parse_variant(&mut self, private: bool) -> (r: Result<VariantDef, ParseError>)
        requires
            old(self).wf(),
        ensures
            final(self).moved_on(*old(self)),
            agrees(r, p_variant(old(self).tokens@, old(self).state(), private), final(self).state()),
    {
        let (name, tags) = match self.parse_def_head() {
            Ok(h) => h,
            Err(e) => return Err(e),
        };
        let cases = match self.parse_variant_cases() {
            Ok(c) => c,
            Err(e) => return Err(e),
        };
        self.skip_semicolon();
        Ok(VariantDef { name, tags, cases, private })
    }
}

impl Parser {
    fn parse_struct_source(&mut self) -> (r: Result<StructSource, ParseError>)
        requires
            old(self).wf(),
        ensures
            final(self).moved_on(*old(self)),
            agrees(r, p_struct_source(old(self).tokens@, old(self).state()), final(self).state()),
    {
        let ghost t = self.tokens@;
        let (line, col) = self.current_pos();
        match self.peek() {
            Token::At => {
                self.advance();
                let op = match self.expect_ident() {
                    Ok(s) => s,
                    Err(e) => return Err(e),
                };
                if !text_is(&op, "exclude") {
                    return Err(ParseError::UnknownOp { line, col, op });
                }
                match self.expect(Token::LParen) {
                    Ok(()) => {},
                    Err(e) => return Err(e),
                }
                let base = match self.expect_ident() {
                    Ok(s) => s,
                    Err(e) => return Err(e),
                };
                match self.expect(Token::Comma) {
                    Ok(()) => {},
                    Err(e) => return Err(e),
                }
                match self.expect(Token::LBracket) {
                    Ok(()) => {},
                    Err(e) => return Err(e),
                }
                let ghost s6 = self.state();
                let ghost before = *self;
                let mut exclude: Vec<String> = Vec::new();
                loop
                    invariant_except_break
                        p_excluded(t, self.state(), exclude@) == p_excluded(t, s6, Seq::empty()),
                    invariant
                        self.wf(),
                        self.tokens@ == t,
                        t == old(self).tokens@,
                        self.pos >= before.pos,
                        before.pos >= old(self).pos,
                        p_struct_source(t, old(self).state()) == match p_excluded(t, s6, Seq::empty()) {
                            Err(e) => Err(e),
                            Ok((exclude, s7)) => match p_expect(t, s7, Token::RParen) {
                                Err(e) => Err(e),
                                Ok((_, s8)) => Ok((StructSourceV::Exclude { base, exclude }, s8)),
                            },
                        },
                    ensures
                        p_excluded(t, s6, Seq::empty()) == Ok::<(Seq<String>, PState), ParseError>((exclude@, self.state())),
                    decreases self.tokens.len() - self.pos,
                {
                    match self.peek() {
                        Token::RBracket => {
                            self.advance();
                            break;
                        },
                        Token::StringLit(s) => {
                            self.advance();
                            exclude.push(s);
                            self.skip_comma();
                        },
                        other => {
                            let (l, c) = self.current_pos();
                            return Err(ParseError::ExpectedExcludedName { line: l, col: c, got: other });
                        },
                    }
                }
                match self.expect(Token::RParen) {
                    Ok(()) => {},
                    Err(e) => return Err(e),
                }
                Ok(StructSource::Exclude { base, exclude })
            },
            Token::Ident(name) => {
                self.advance();
                Ok(StructSource::Named { name })
            },
            other => Err(ParseError::ExpectedCopySource { line, col, got: other }),
        }
    }

    fn parse_for_body(&mut self) -> (r: Result<Vec<AssertionStmt>, ParseError>)
        requires
            old(self).wf(),
        ensures
            final(self).moved_on(*old(self)),
            agrees_seq(r, p_for_body(old(self).tokens@, old(self).state(), Seq::empty()), final(self).state()),
    {
        let ghost t = self.tokens@;
        let ghost start = self.state();
        let mut body: Vec<AssertionStmt> = Vec::new();
        let ghost mut sacc: Seq<AssertionStmtV> = Seq::empty();
        loop
            invariant
                self.wf(),
                self.tokens@ == t,
                t == old(self).tokens@,
                start == old(self).state(),
                self.pos >= old(self).pos,
                p_for_body(t, self.state(), sacc) == p_for_body(t, start, Seq::empty()),
                body@.len() == sacc.len(),
                forall|j: int| 0 <= j < sacc.len() ==> body@[j]@ == sacc[j],
            decreases self.tokens.len() - self.pos,
        {
            let (line, col) = self.current_pos();
            match self.peek() {
                Token::RBrace => {
                    self.advance();
                    assert(body@.map_values(|x: AssertionStmt| x@) =~= sacc);
                    return Ok(body);
                },
                Token::Dollar => {
                    let haskey_line = line;
                    let subject = match self.expect_dollar_ident() {
                        Ok(s) => s,
                        Err(e) => return Err(e),
                    };
                    let (l2, c2) = self.current_pos();
                    let check = match self.expect_ident() {
                        Ok(s) => s,
                        Err(e) => return Err(e),
                    };
                    if text_is(&check, "haskey") {
                        let key = match self.expect_dollar_ident() {
                            Ok(s) => s,
                            Err(e) => return Err(e),
                        };
                        let ghost st = AssertionStmtV::HasKey { subject, key, line: haskey_line };
                        body.push(AssertionStmt::HasKey { subject, key, line: haskey_line });
                        proof {
                            sacc = sacc.push(st);
                        }
                    } else {
                        return Err(ParseError::UnknownCheck { line: l2, col: c2, got: check });
                    }
                },
                other => {
                    return Err(ParseError::ExpectedCheckOrClose { line, col, got: other });
                },
            }
        }
    }

    fn parse_assertion_for(&mut self) -> (r: Result<AssertionStmt, ParseError>)
        requires
            old(self).wf(),
        ensures
            final(self).moved_on(*old(self)),
            agrees(r, p_assertion_for(old(self).tokens@, old(self).state()), final(self).state()),
    {
        let for_line = self.last_line;
        let var = match self.expect_dollar_ident() {
            Ok(s) => s,
            Err(e) => return Err(e),
        };
        let (line, col) = self.current_pos();
        let kw = match self.expect_ident() {
            Ok(s) => s,
            Err(e) => return Err(e),
        };
        if !text_is(&kw, "in") {
            return Err(ParseError::ExpectedIn { line, col, got: kw });
        }
        let source = match self.expect_ident() {
            Ok(s) => s,
            Err(e) => return Err(e),
        };
        match self.expect(Token::LBrace) {
            Ok(()) => {},
            Err(e) => return Err(e),
        }
        let body = match self.parse_for_body() {
            Ok(b) => b,
            Err(e) => return Err(e),
        };
        assert(stmts_view(body@) =~= body@.map_values(|x: AssertionStmt| x@));
        Ok(AssertionStmt::ForIn { var, source, body, line: for_line })
    }

    fn parse_assertion_body(&mut self) -> (r: Result<Vec<AssertionStmt>, ParseError>)
        requires
            old(self).wf(),
        ensures
            final(self).moved_on(*old(self)),
            agrees_seq(r, p_assertion_body(old(self).tokens@, old(self).state()), final(self).state()),
    {
        let ghost t = self.tokens@;
        match self.expect(Token::LBrace) {
            Ok(()) => {},
            Err(e) => return Err(e),
        }
        let ghost start = self.state();
        let ghost p1 = self.pos;
        let mut stmts: Vec<AssertionStmt> = Vec::new();
        let ghost mut sacc: Seq<AssertionStmtV> = Seq::empty();
        loop
            invariant
                self.wf(),
                self.tokens@ == t,
                t == old(self).tokens@,
                self.pos >= p1,
                p1 >= old(self).pos,
                p_assertion_body(t, old(self).state()) == p_body_stmts(t, start, Seq::empty()),
                p_body_stmts(t, self.state(), sacc) == p_body_stmts(t, start, Seq::empty()),
                stmts@.len() == sacc.len(),
                forall|j: int| 0 <= j < sacc.len() ==> stmts@[j]@ == sacc[j],
            decreases self.tokens.len() - self.pos,
        {
            let (line, col) = self.current_pos();
            let tk = self.peek();
            match tk {
                Token::RBrace => {
                    self.advance();
                    assert(stmts@.map_values(|x: AssertionStmt| x@) =~= sacc);
                    return Ok(stmts);
                },
                Token::Ident(kw) => {
                    if text_is(&kw, "for") {
                        self.advance();
                        let stmt = match self.parse_assertion_for() {
                            Ok(s) => s,
                            Err(e) => return Err(e),
                        };
                        let ghost sv = stmt@;
                        stmts.push(stmt);
                        proof {
                            sacc = sacc.push(sv);
                        }
                    } else {
                        return Err(ParseError::ExpectedForOrClose { line, col, got: Token::Ident(kw) });
                    }
                },
                other => {
                    return Err(ParseError::ExpectedForOrClose { line, col, got: other });
                },
            }
        }
    }

    /// Reads `($s) { body }` or `AssertionName` after `assert` at `line`/`col`.
    fn parse_assert_ref(&mut self, line: usize, col: usize) -> (r: Result<AssertRef, ParseError>)
        requires
            old(self).wf(),
        ensures
            final(self).moved_on(*old(self)),
            agrees(r, p_assert_ref(old(self).tokens@, old(self).state(), line, col), final(self).state()),
    {
        match self.peek() {
            Token::LParen => {
                self.advance();
                let param = match self.expect_dollar_ident() {
                    Ok(s) => s,
                    Err(e) => return Err(e),
                };
                match self.expect(Token::RParen) {
                    Ok(()) => {},
                    Err(e) => return Err(e),
                }
                let body = match self.parse_assertion_body() {
                    Ok(b) => b,
                    Err(e) => return Err(e),
                };
                assert(stmts_view(body@) =~= body@.map_values(|x: AssertionStmt| x@));
                Ok(AssertRef::Inline { param, body, line })
            },
            Token::Ident(name) => {
                self.advance();
                Ok(AssertRef::Named { name, line })
            },
            other => Err(ParseError::ExpectedAssertRef { line, col, got: other }),
        }
    }

    fn parse_assertion_def(&mut self) -> (r: Result<AssertionDef, ParseError>)
        requires
            old(self).wf(),
        ensures
            final(self).moved_on(*old(self)),
            agrees(r, p_assertion_def(old(self).tokens@, old(self).state()), final(self).state()),
    {
        let name = match self.expect_ident() {
            Ok(s) => s,
            Err(e) => return Err(e),
        };
        match self.expect(Token::LParen) {
            Ok(()) => {},
            Err(e) => return Err(e),
        }
        let (line, col) = self.current_pos();
        let kind = match self.expect_ident() {
            Ok(s) => s,
            Err(e) => return Err(e),
        };
        if !text_is(&kind, "struct") {
            return Err(ParseError::AssertionParamKind { line, col, got: kind });
        }
        let param = match self.expect_dollar_ident() {
            Ok(s) => s,
            Err(e) => return Err(e),
        };
        match self.expect(Token::RParen) {
            Ok(()) => {},
            Err(e) => return Err(e),
        }
        let body = match self.parse_assertion_body() {
            Ok(b) => b,
            Err(e) => return Err(e),
        };
        assert(stmts_view(body@) =~= body@.map_values(|x: AssertionStmt| x@));
        self.skip_semicolon();
        Ok(AssertionDef { name, param, body })
    }

    /// A field name after its first identifier: `first` or `first.case`.
    fn parse_field_name(&mut self, first: String) -> (r: Result<String, ParseError>)
        requires
            old(self).wf(),
        ensures
            final(self).moved_on(*old(self)),
            agrees_exactly(r, p_field_name(old(self).tokens@, old(self).state(), first), final(self).state()),
    {
        if self.at(&Token::Dot) {
            self.advance();
            let case = match self.expect_ident() {
                Ok(s) => s,
                Err(e) => return Err(e),
            };
            Ok(join_dotted(&first, &case))
        } else {
            Ok(first)
        }
    }
}

impl Parser {
    fn parse_struct(&mut self, private: bool) -> (r: Result<StructDef, ParseError>)
        requires
            old(self).wf(),
        ensures
            final(self).moved_on(*old(self)),
            agrees(r, p_struct(old(self).tokens@, old(self).state(), private), final(self).state()),
    {
        let ghost t = self.tokens@;
        let (name, tags) = match self.parse_def_head() {
            Ok(h) => h,
            Err(e) => return Err(e),
        };
        let ghost start = self.state();
        let ghost p3 = self.pos;
        let mut copies: Vec<StructSource> = Vec::new();
        let mut fields: Vec<StructField> = Vec::new();
        let mut asserts: Vec<AssertRef> = Vec::new();
        let ghost mut sc: Seq<StructSourceV> = Seq::empty();
        let ghost mut sf: Seq<StructFieldV> = Seq::empty();
        let ghost mut sa: Seq<AssertRefV> = Seq::empty();
        loop
            invariant_except_break
                p_struct_members(t, self.state(), (sc, sf, sa)) == p_struct_members(t, start, (Seq::empty(), Seq::empty(), Seq::empty())),
            invariant
                self.wf(),
                self.tokens@ == t,
                t == old(self).tokens@,
                self.pos >= p3,
                p3 >= old(self).pos,
                p_struct(t, old(self).state(), private) == match p_struct_members(t, start, (Seq::empty(), Seq::empty(), Seq::empty())) {
                    Err(e) => Err(e),
                    Ok(((copies, fields, asserts), s4)) =>
                        Ok((StructDefV { name, tags: tags@, copies, fields, asserts, private }, opt_semicolon(t, s4))),
                },
                copies@.len() == sc.len(),
                forall|j: int| 0 <= j < sc.len() ==> copies@[j]@ == sc[j],
                fields@.len() == sf.len(),
                forall|j: int| 0 <= j < sf.len() ==> fields@[j]@ == sf[j],
                asserts@.len() == sa.len(),
                forall|j: int| 0 <= j < sa.len() ==> asserts@[j]@ == sa[j],
            ensures
                p_struct_members(t, start, (Seq::empty(), Seq::empty(), Seq::empty())) == Ok::<(StructParts, PState), ParseError>(((sc, sf, sa), self.state())),
            decreases self.tokens.len() - self.pos,
        {
            let (line, col) = self.current_pos();
            match self.peek() {
                Token::RBrace => {
                    self.advance();
                    break;
                },
                Token::Ident(word) => {
                    if text_is(&word, "copy") {
                        self.advance();
                        if fields.len() != 0 {
                            return Err(ParseError::CopyAfterField { line, col });
                        }
                        let source = match self.parse_struct_source() {
                            Ok(s) => s,
                            Err(e) => return Err(e),
                        };
                        let ghost v = source@;
                        copies.push(source);
                        match self.expect_comma_or_close() {
                            Ok(()) => {},
                            Err(e) => return Err(e),
                        }
                        proof {
                            sc = sc.push(v);
                        }
                    } else if text_is(&word, "assert") {
                        self.advance();
                        let a = match self.parse_assert_ref(line, col) {
                            Ok(a) => a,
                            Err(e) => return Err(e),
                        };
                        let ghost v = a@;
                        asserts.push(a);
                        self.skip_comma();
                        proof {
                            sa = sa.push(v);
                        }
                    } else {
                        self.advance();
                        let field_name = match self.parse_field_name(word) {
                            Ok(n) => n,
                            Err(e) => return Err(e),
                        };
                        match self.expect(Token::Equals) {
                            Ok(()) => {},
                            Err(e) => return Err(e),
                        }
                        let ty = match self.parse_type() {
                            Ok(t) => t,
                            Err(e) => return Err(e),
                        };
                        let ftags = match self.parse_tags(self.last_line) {
                            Ok(t) => t,
                            Err(e) => return Err(e),
                        };
                        let ghost v = StructFieldV { name: field_name, ty, tags: ftags@, line };
                        fields.push(StructField { name: field_name, ty, tags: ftags, line });
                        match self.expect_comma_or_close() {
                            Ok(()) => {},
                            Err(e) => return Err(e),
                        }
                        proof {
                            sf = sf.push(v);
                        }
                    }
                },
                other => {
                    return Err(ParseError::ExpectedStructMember { line, col, got: other });
                },
            }
        }
        self.skip_semicolon();
        assert(copies@.map_values(|x: StructSource| x@) =~= sc);
        assert(fields@.map_values(|x: StructField| x@) =~= sf);
        assert(asserts@.map_values(|x: AssertRef| x@) =~= sa);
        Ok(StructDef { name, tags, copies, fields, asserts, private })
    }
}

/// Like `agrees`, for the fields of a struct literal.
pub open spec fn agrees_fields(r: Result<Vec<ExprField>, ParseError>, s: PResult<Seq<ExprFieldV>>, after: PState) -> bool {
    match s {
        Ok((v, st)) => r is Ok && expr_fields_view(r->Ok_0@) == v && after == st,
        Err(e) => r == Err::<Vec<ExprField>, ParseError>(e),
    }
}

impl Parser {
    fn parse_expr(&mut self) -> (r: Result<Expr, ParseError>)
        requires
            old(self).wf(),
        ensures
            final(self).moved_on(*old(self)),
            agrees(r, p_expr(old(self).tokens@, old(self).state()), final(self).state()),
        decreases old(self).tokens@.len() - old(self).pos, 1nat,
    {
        let ghost t = self.tokens@;
        let (line, col) = self.current_pos();
        match self.peek() {
            Token::StringLit(s) => {
                self.advance();
                Ok(Expr::Str { value: s })
            },
            Token::NumberLit(n) => {
                self.advance();
                Ok(Expr::Number { value: n })
            },
            Token::BoolLit(b) => {
                self.advance();
                Ok(Expr::Bool { value: b })
            },
            Token::Ident(first) => {
                if text_is(&first, "null") {
                    self.advance();
                    return Ok(Expr::Null);
                }
                self.advance();
                let (ty, maybe_case) = if self.at(&Token::Dot) {
                    self.advance();
                    let second = match self.expect_ident() {
                        Ok(s) => s,
                        Err(e) => return Err(e),
                    };
                    (first, Some(second))
                } else {
                    (first, None)
                };
                if self.at(&Token::LBrace) {
                    let full_ty = match maybe_case {
                        Some(part) => join_dotted(&ty, &part),
                        None => ty,
                    };
                    let fields = match self.parse_expr_fields() {
                        Ok(f) => f,
                        Err(e) => return Err(e),
                    };
                    Ok(Expr::Struct { ty: full_ty, fields })
                } else {
                    match maybe_case {
                        Some(case) => Ok(Expr::EnumCase { ty, case }),
                        None => Err(ParseError::ExpectedBraceOrCase { line, col }),
                    }
                }
            },
            other => Err(ParseError::ExpectedExpr { line, col, got: other }),
        }
    }

    fn parse_expr_fields(&mut self) -> (r: Result<Vec<ExprField>, ParseError>)
        requires
            old(self).wf(),
        ensures
            final(self).moved_on(*old(self)),
            agrees_fields(r, p_expr_fields(old(self).tokens@, old(self).state()), final(self).state()),
        decreases old(self).tokens@.len() - old(self).pos, 0nat,
    {
        let ghost t = self.tokens@;
        match self.expect(Token::LBrace) {
            Ok(()) => {},
            Err(e) => return Err(e),
        }
        let ghost start = self.state();
        let ghost p1 = self.pos;
        let mut fields: Vec<ExprField> = Vec::new();
        let ghost mut sacc: Seq<ExprFieldV> = Seq::empty();
        loop
            invariant
                self.wf(),
                self.tokens@ == t,
                t == old(self).tokens@,
                self.pos >= p1,
                p1 > old(self).pos,
                p_expr_fields(t, old(self).state()) == p_expr_field_list(t, start, Seq::empty()),
                p_expr_field_list(t, self.state(), sacc) == p_expr_field_list(t, start, Seq::empty()),
                fields@.len() == sacc.len(),
                forall|j: int| 0 <= j < sacc.len() ==> (ExprFieldV { name: fields@[j].name, value: expr_view(fields@[j].value) }) == sacc[j],
            decreases self.tokens.len() - self.pos,
        {
            let (line, col) = self.current_pos();
            match self.peek() {
                Token::RBrace => {
                    self.advance();
                    assert(expr_fields_view(fields@) =~= sacc);
                    return Ok(fields);
                },
                Token::Ident(fname) => {
                    self.advance();
                    let name = match self.parse_field_name(fname) {
                        Ok(n) => n,
                        Err(e) => return Err(e),
                    };
                    match self.expect(Token::Equals) {
                        Ok(()) => {},
                        Err(e) => return Err(e),
                    }
                    let value = match self.parse_expr() {
                        Ok(v) => v,
                        Err(e) => return Err(e),
                    };
                    let ghost fv = ExprFieldV { name, value: expr_view(value) };
                    fields.push(ExprField { name, value });
                    match self.expect_comma_or_close() {
                        Ok(()) => {},
                        Err(e) => return Err(e),
                    }
                    proof {
                        sacc = sacc.push(fv);
                    }
                },
                other => {
                    return Err(ParseError::ExpectedLiteralField { line, col, got: other });
                },
            }
        }
    }

    fn parse_const(&mut self) -> (r: Result<ConstDef, ParseError>)
        requires
            old(self).wf(),
        ensures
            final(self).moved_on(*old(self)),
            agrees(r, p_const(old(self).tokens@, old(self).state()), final(self).state()),
    {
        let name = match self.expect_ident() {
            Ok(s) => s,
            Err(e) => return Err(e),
        };
        match self.expect(Token::Equals) {
            Ok(()) => {},
            Err(e) => return Err(e),
        }
        let value = match self.parse_expr() {
            Ok(v) => v,
            Err(e) => return Err(e),
        };
        self.skip_semicolon();
        Ok(ConstDef { name, value })
    }
}

impl Parser {
    fn parse_endpoints(&mut self) -> (r: Result<Vec<Endpoint>, ParseError>)
        requires
            old(self).wf(),
        ensures
            final(self).moved_on(*old(self)),
            agrees_seq(r, p_endpoints(old(self).tokens@, old(self).state(), Seq::empty()), final(self).state()),
    {
        let ghost t = self.tokens@;
        let ghost start = self.state();
        let mut endpoints: Vec<Endpoint> = Vec::new();
        let ghost mut sacc: Seq<EndpointV> = Seq::empty();
        loop
            invariant
                self.wf(),
                self.tokens@ == t,
                t == old(self).tokens@,
                start == old(self).state(),
                self.pos >= old(self).pos,
                p_endpoints(t, self.state(), sacc) == p_endpoints(t, start, Seq::empty()),
                endpoints@.len() == sacc.len(),
                forall|j: int| 0 <= j < sacc.len() ==> endpoints@[j]@ == sacc[j],
            decreases self.tokens.len() - self.pos,
        {
            let (line, col) = self.current_pos();
            match self.peek() {
                Token::RBrace => {
                    self.advance();
                    assert(endpoints@.map_values(|x: Endpoint| x@) =~= sacc);
                    return Ok(endpoints);
                },
                Token::StringLit(ep_name) => {
                    self.advance();
                    let tags = match self.parse_tags(self.last_line) {
                        Ok(t) => t,
                        Err(e) => return Err(e),
                    };
                    match self.expect(Token::LAngle) {
                        Ok(()) => {},
                        Err(e) => return Err(e),
                    }
                    let request = match self.parse_type() {
                        Ok(t) => t,
                        Err(e) => return Err(e),
                    };
                    match self.expect(Token::Comma) {
                        Ok(()) => {},
                        Err(e) => return Err(e),
                    }
                    let response = match self.parse_type() {
                        Ok(t) => t,
                        Err(e) => return Err(e),
                    };
                    let error = if self.at(&Token::Bang) {
                        self.advance();
                        match self.parse_type() {
                            Ok(t) => Some(t),
                            Err(e) => return Err(e),
                        }
                    } else {
                        None
                    };
                    match self.expect(Token::RAngle) {
                        Ok(()) => {},
                        Err(e) => return Err(e),
                    }
                    let ghost ev = EndpointV { name: ep_name, tags: tags@, request, response, error, line };
                    endpoints.push(Endpoint { name: ep_name, tags, request, response, error, line });
                    match self.expect_comma_or_close() {
                        Ok(()) => {},
                        Err(e) => return Err(e),
                    }
                    proof {
                        sacc = sacc.push(ev);
                    }
                },
                other => {
                    return Err(ParseError::ExpectedEndpoint { line, col, got: other });
                },
            }
        }
    }

    fn parse_protocol(&mut self, private: bool) -> (r: Result<ProtocolDef, ParseError>)
        requires
            old(self).wf(),
        ensures
            final(self).moved_on(*old(self)),
            agrees(r, p_protocol(old(self).tokens@, old(self).state(), private), final(self).state()),
    {
        let (name, tags) = match self.parse_def_head() {
            Ok(h) => h,
            Err(e) => return Err(e),
        };
        let endpoints = match self.parse_endpoints() {
            Ok(e) => e,
            Err(e) => return Err(e),
        };
        self.skip_semicolon();
        Ok(ProtocolDef { name, tags, endpoints, private })
    }

    fn parse_definition(&mut self) -> (r: Result<Definition, ParseError>)
        requires
            old(self).wf(),
        ensures
            final(self).moved_on(*old(self)),
            agrees(r, p_definition(old(self).tokens@, old(self).state()), final(self).state()),
            r is Ok ==> final(self).pos > old(self).pos,
    {
        let (line, col) = self.current_pos();
        let first = match self.expect_ident() {
            Ok(s) => s,
            Err(e) => return Err(e),
        };
        let (private, kw_line, kw_col, keyword) = if text_is(&first, "private") {
            let (l, c) = self.current_pos();
            let kw = match self.expect_ident() {
                Ok(s) => s,
                Err(e) => return Err(e),
            };
            (true, l, c, kw)
        } else {
            (false, line, col, first)
        };
        if text_is(&keyword, "enum") {
            match self.parse_enum(private) {
                Ok(d) => Ok(Definition::Enum(d)),
                Err(e) => Err(e),
            }
        } else if text_is(&keyword, "variant") {
            match self.parse_variant(private) {
                Ok(d) => Ok(Definition::Variant(d)),
                Err(e) => Err(e),
            }
        } else if text_is(&keyword, "struct") {
            match self.parse_struct(private) {
                Ok(d) => Ok(Definition::Struct(d)),
                Err(e) => Err(e),
            }
        } else if text_is(&keyword, "protocol") {
            match self.parse_protocol(private) {
                Ok(d) => Ok(Definition::Protocol(d)),
                Err(e) => Err(e),
            }
        } else if text_is(&keyword, "const") {
            if private {
                return Err(ParseError::PrivateConst { line: kw_line, col: kw_col });
            }
            match self.parse_const() {
                Ok(d) => Ok(Definition::Const(d)),
                Err(e) => Err(e),
            }
        } else {
            Err(ParseError::UnknownDefinition { line: kw_line, col: kw_col, private, got: keyword })
        }
    }

    /// Reads a whole file from the current position to the end of the tokens.
    #[verifier::rlimit(60)]
    pub fn parse_file(&mut self) -> (r: Result<File, ParseError>)
        requires
            old(self).wf(),
        ensures
            final(self).wf(),
            final(self).tokens() == old(self).tokens(),
            agrees(r, p_items(old(self).tokens(), old(self).state(),
                (FileV { enforcers: Seq::empty(), imports: Seq::empty(), definitions: Seq::empty(), assertion_defs: Seq::empty() })),
                final(self).state()),
    {
        let ghost t = self.tokens@;
        let ghost start = self.state();
        let ghost empty = FileV { enforcers: Seq::empty(), imports: Seq::empty(), definitions: Seq::empty(), assertion_defs: Seq::empty() };
        let mut enforcers: Vec<Enforcer> = Vec::new();
        let mut imports: Vec<Import> = Vec::new();
        let mut definitions: Vec<Definition> = Vec::new();
        let mut assertion_defs: Vec<AssertionDef> = Vec::new();
        let ghost mut acc = empty;
        loop
            invariant
                self.wf(),
                self.tokens@ == t,
                t == old(self).tokens@,
                start == old(self).state(),
                empty == (FileV { enforcers: Seq::empty(), imports: Seq::empty(), definitions: Seq::empty(), assertion_defs: Seq::empty() }),
                p_items(t, self.state(), acc) == p_items(t, start, empty),
                enforcers@ == acc.enforcers,
                imports@.len() == acc.imports.len(),
                forall|j: int| 0 <= j < acc.imports.len() ==> imports@[j]@ == acc.imports[j],
                definitions@.len() == acc.definitions.len(),
                forall|j: int| 0 <= j < acc.definitions.len() ==> definitions@[j]@ == acc.definitions[j],
                assertion_defs@.len() == acc.assertion_defs.len(),
                forall|j: int| 0 <= j < acc.assertion_defs.len() ==> assertion_defs@[j]@ == acc.assertion_defs[j],
            decreases self.tokens.len() - self.pos,
        {
            match self.peek() {
                Token::Eof => {
                    let f = File { enforcers, imports, definitions, assertion_defs };
                    assert(f@.imports =~= acc.imports);
                    assert(f@.definitions =~= acc.definitions);
                    assert(f@.assertion_defs =~= acc.assertion_defs);
                    return Ok(f);
                },
                Token::Bang => {
                    self.advance();
                    let en = match self.parse_enforcer() {
                        Ok(e) => e,
                        Err(e) => return Err(e),
                    };
                    proof {
                        acc = FileV { enforcers: acc.enforcers.push(en), ..acc };
                    }
                    enforcers.push(en);
                },
                Token::At => {
                    self.advance();
                    let im = match self.parse_import() {
                        Ok(i) => i,
                        Err(e) => return Err(e),
                    };
                    proof {
                        acc = FileV { imports: acc.imports.push(im@), ..acc };
                    }
                    imports.push(im);
                },
                Token::Ident(word) => {
                    if text_is(&word, "assertion") {
                        self.advance();
                        let ad = match self.parse_assertion_def() {
                            Ok(a) => a,
                            Err(e) => return Err(e),
                        };
                        proof {
                            acc = FileV { assertion_defs: acc.assertion_defs.push(ad@), ..acc };
                        }
                        assertion_defs.push(ad);
                    } else {
                        let d = match self.parse_definition() {
                            Ok(d) => d,
                            Err(e) => return Err(e),
                        };
                        proof {
                            acc = FileV { definitions: acc.definitions.push(d@), ..acc };
                        }
                        definitions.push(d);
                    }
                },
                _ => {
                    let d = match self.parse_definition() {
                        Ok(d) => d,
                        Err(e) => return Err(e),
                    };
                    proof {
                        acc = FileV { definitions: acc.definitions.push(d@), ..acc };
                    }
                    definitions.push(d);
                },
            }
        }
    }
}

} // verus!
