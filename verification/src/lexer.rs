//! Turns source text into tokens, each with the line and column where it starts.
use vstd::prelude::*;
use crate::text::{
    chars_of, is_alphabetic, is_alphanumeric, is_ascii_digit, is_whitespace, push_char,
    string_from, string_of, text_is, unicode_alphabetic, unicode_alphanumeric, unicode_whitespace,
};

verus! {

/// A token of the WST language. A number keeps the text it was written with.
#[derive(Debug, Clone, PartialEq)]
pub enum Token {
    Ident(String),
    StringLit(String),
    NumberLit(String),
    BoolLit(bool),
    Hash,
    Colon,
    Equals,
    Comma,
    Semicolon,
    LBrace,
    RBrace,
    LAngle,
    RAngle,
    LBracket,
    RBracket,
    LParen,
    RParen,
    Dollar,
    Bang,
    At,
    Caret,
    Star,
    Dot,
    Slash,
    Eof,
}

/// Why the source text could not be split into tokens.
#[derive(Debug, Clone, PartialEq)]
pub enum LexError {
    /// A character that starts no token, with the line and column where it stands.
    UnexpectedChar { line: usize, col: usize, ch: char },
    /// A backslash at the very end of the input, inside a string literal.
    UnterminatedEscape,
    /// A string literal that the input ends inside.
    UnterminatedString,
    /// A numeral with more than one decimal point.
    InvalidNumber { text: String },
}

/// A token with the line (from 1) and column (from 0) of its first character.
pub type Spanned = (Token, usize, usize);

/// Position of the lexer: index into the characters, line, column.
pub type LexPos = (int, int, int);

/// The position after consuming the character at `s` (none at the end).
pub open spec fn lex_step(chars: Seq<char>, s: LexPos) -> LexPos {
    if 0 <= s.0 < chars.len() {
        if chars[s.0] == '\n' {
            (s.0 + 1, s.1 + 1, 0)
        } else {
            (s.0 + 1, s.1, s.2 + 1)
        }
    } else {
        s
    }
}

/// Skips whitespace and `//` line comments; `in_comment` when inside a comment.
pub open spec fn skip_trivia(chars: Seq<char>, s: LexPos, in_comment: bool) -> LexPos
    decreases chars.len() - s.0, (if in_comment { 1int } else { 0int }),
{
    if s.0 < 0 {
        s
    } else if in_comment {
        if s.0 < chars.len() && chars[s.0] != '\n' {
            skip_trivia(chars, lex_step(chars, s), true)
        } else {
            skip_trivia(chars, s, false)
        }
    } else if s.0 < chars.len() && unicode_whitespace(chars[s.0]) {
        skip_trivia(chars, lex_step(chars, s), false)
    } else if s.0 + 1 < chars.len() && chars[s.0] == '/' && chars[s.0 + 1] == '/' {
        skip_trivia(chars, lex_step(chars, lex_step(chars, s)), true)
    } else {
        s
    }
}

/// The body of a string literal from `s` (after the opening quote), with the
/// characters read so far in `acc`; ends after the closing quote.
pub open spec fn string_body(chars: Seq<char>, s: LexPos, acc: Seq<char>) -> Result<(Seq<char>, LexPos), LexError>
    decreases chars.len() - s.0,
{
    if !(0 <= s.0 < chars.len()) {
        Err(LexError::UnterminatedString)
    } else {
        let c = chars[s.0];
        let s1 = lex_step(chars, s);
        if c == '"' {
            Ok((acc, s1))
        } else if c == '\\' {
            if !(s1.0 < chars.len()) {
                Err(LexError::UnterminatedEscape)
            } else {
                let e = chars[s1.0];
                let s2 = lex_step(chars, s1);
                let acc2 = if e == 'n' {
                    acc.push('\n')
                } else if e == 't' {
                    acc.push('\t')
                } else if e == '"' {
                    acc.push('"')
                } else if e == '\\' {
                    acc.push('\\')
                } else {
                    acc.push('\\').push(e)
                };
                string_body(chars, s2, acc2)
            }
        } else {
            string_body(chars, s1, acc.push(c))
        }
    }
}

/// Characters that continue a numeral.
pub open spec fn numeral_char(c: char) -> bool {
    is_ascii_digit(c) || c == '.'
}

/// Characters that continue an identifier.
pub open spec fn ident_char(c: char) -> bool {
    unicode_alphanumeric(c) || c == '_'
}

/// The longest run from `s` of characters that satisfy `numeral_char` (`ident`
/// false) or `ident_char` (`ident` true), appended to `acc`.
pub open spec fn char_run(chars: Seq<char>, s: LexPos, acc: Seq<char>, ident: bool) -> (Seq<char>, LexPos)
    decreases chars.len() - s.0,
{
    if 0 <= s.0 < chars.len() && (if ident { ident_char(chars[s.0]) } else { numeral_char(chars[s.0]) }) {
        char_run(chars, lex_step(chars, s), acc.push(chars[s.0]), ident)
    } else {
        (acc, s)
    }
}

/// The number of decimal points in `t`.
pub open spec fn dot_count(t: Seq<char>) -> nat
    decreases t.len(),
{
    if t.len() == 0 {
        0
    } else {
        dot_count(t.drop_last()) + (if t.last() == '.' { 1nat } else { 0nat })
    }
}

/// The token for a single punctuation character, if `c` is one.
pub open spec fn punct_token(c: char) -> Option<Token> {
    if c == '#' { Some(Token::Hash) }
    else if c == ':' { Some(Token::Colon) }
    else if c == '=' { Some(Token::Equals) }
    else if c == ',' { Some(Token::Comma) }
    else if c == ';' { Some(Token::Semicolon) }
    else if c == '{' { Some(Token::LBrace) }
    else if c == '}' { Some(Token::RBrace) }
    else if c == '<' { Some(Token::LAngle) }
    else if c == '>' { Some(Token::RAngle) }
    else if c == '[' { Some(Token::LBracket) }
    else if c == ']' { Some(Token::RBracket) }
    else if c == '(' { Some(Token::LParen) }
    else if c == ')' { Some(Token::RParen) }
    else if c == '$' { Some(Token::Dollar) }
    else if c == '!' { Some(Token::Bang) }
    else if c == '@' { Some(Token::At) }
    else if c == '^' { Some(Token::Caret) }
    else if c == '*' { Some(Token::Star) }
    else if c == '.' { Some(Token::Dot) }
    else if c == '/' { Some(Token::Slash) }
    else { None }
}

/// Whether a numeral starts at `s`: a digit, or `-` followed by a digit.
pub open spec fn numeral_starts(chars: Seq<char>, s: LexPos) -> bool {
    &&& 0 <= s.0 < chars.len()
    &&& (is_ascii_digit(chars[s.0]) || (chars[s.0] == '-' && s.0 + 1 < chars.len()
        && is_ascii_digit(chars[s.0 + 1])))
}

/// The token that starts at `s`, and the position after it.
pub open spec fn token_at(chars: Seq<char>, s: LexPos) -> Result<(Token, LexPos), LexError> {
    if !(0 <= s.0 < chars.len()) {
        Ok((Token::Eof, s))
    } else {
        let c = chars[s.0];
        if punct_token(c) is Some {
            Ok((punct_token(c)->0, lex_step(chars, s)))
        } else if c == '"' {
            match string_body(chars, lex_step(chars, s), Seq::empty()) {
                Ok((body, s2)) => Ok((Token::StringLit(string_of(body)), s2)),
                Err(e) => Err(e),
            }
        } else if numeral_starts(chars, s) {
            let (text, s2) = if c == '-' {
                char_run(chars, lex_step(chars, s), seq!['-'], false)
            } else {
                char_run(chars, s, Seq::empty(), false)
            };
            if dot_count(text) <= 1 {
                Ok((Token::NumberLit(string_of(text)), s2))
            } else {
                Err(LexError::InvalidNumber { text: string_of(text) })
            }
        } else if unicode_alphabetic(c) || c == '_' {
            let (text, s2) = char_run(chars, lex_step(chars, s), seq![c], true);
            if text == "true"@ {
                Ok((Token::BoolLit(true), s2))
            } else if text == "false"@ {
                Ok((Token::BoolLit(false), s2))
            } else {
                Ok((Token::Ident(string_of(text)), s2))
            }
        } else {
            Err(LexError::UnexpectedChar { line: s.1 as usize, col: s.2 as usize, ch: c })
        }
    }
}

/// Tokens from position `s` on, after the tokens `acc` already read; the last
/// token is `Eof`, placed where only whitespace and comments remain.
pub open spec fn lex_from(chars: Seq<char>, s: LexPos, acc: Seq<Spanned>) -> Result<Seq<Spanned>, LexError>
    decreases chars.len() - s.0,
{
    if s.0 < 0 {
        Ok(acc)
    } else {
        let s1 = skip_trivia(chars, s, false);
        if s1.0 >= chars.len() {
            Ok(acc.push((Token::Eof, s1.1 as usize, s1.2 as usize)))
        } else {
            match token_at(chars, s1) {
                Err(e) => Err(e),
                Ok((t, s2)) => {
                    proof {
                        lemma_skip_trivia_bounds(chars, s, false);
                        lemma_token_advances(chars, s1);
                    }
                    lex_from(chars, s2, acc.push((t, s1.1 as usize, s1.2 as usize)))
                },
            }
        }
    }
}

/// All tokens of `chars`, starting at line 1, column 0.
pub open spec fn lex(chars: Seq<char>) -> Result<Seq<Spanned>, LexError> {
    lex_from(chars, (0, 1, 0), Seq::empty())
}

pub proof fn lemma_skip_trivia_bounds(chars: Seq<char>, s: LexPos, in_comment: bool)
    requires
        0 <= s.0,
    ensures
        s.0 <= skip_trivia(chars, s, in_comment).0,
        s.0 <= chars.len() ==> skip_trivia(chars, s, in_comment).0 <= chars.len(),
    decreases chars.len() - s.0, (if in_comment { 1int } else { 0int }),
{
    if in_comment {
        if s.0 < chars.len() && chars[s.0] != '\n' {
            lemma_skip_trivia_bounds(chars, lex_step(chars, s), true);
        } else {
            lemma_skip_trivia_bounds(chars, s, false);
        }
    } else if s.0 < chars.len() && unicode_whitespace(chars[s.0]) {
        lemma_skip_trivia_bounds(chars, lex_step(chars, s), false);
    } else if s.0 + 1 < chars.len() && chars[s.0] == '/' && chars[s.0 + 1] == '/' {
        lemma_skip_trivia_bounds(chars, lex_step(chars, lex_step(chars, s)), true);
    }
}

pub proof fn lemma_string_body_advances(chars: Seq<char>, s: LexPos, acc: Seq<char>)
    requires
        0 <= s.0,
    ensures
        string_body(chars, s, acc) matches Ok((_, s2)) ==> s.0 < s2.0 <= chars.len(),
    decreases chars.len() - s.0,
{
    if 0 <= s.0 < chars.len() {
        let c = chars[s.0];
        let s1 = lex_step(chars, s);
        if c == '\\' {
            if s1.0 < chars.len() {
                let e = chars[s1.0];
                let s2 = lex_step(chars, s1);
                let acc2 = if e == 'n' {
                    acc.push('\n')
                } else if e == 't' {
                    acc.push('\t')
                } else if e == '"' {
                    acc.push('"')
                } else if e == '\\' {
                    acc.push('\\')
                } else {
                    acc.push('\\').push(e)
                };
                lemma_string_body_advances(chars, s2, acc2);
            }
        } else if c != '"' {
            lemma_string_body_advances(chars, s1, acc.push(c));
        }
    }
}

pub proof fn lemma_char_run_bounds(chars: Seq<char>, s: LexPos, acc: Seq<char>, ident: bool)
    requires
        0 <= s.0 <= chars.len(),
    ensures
        s.0 <= char_run(chars, s, acc, ident).1.0 <= chars.len(),
    decreases chars.len() - s.0,
{
    if 0 <= s.0 < chars.len() && (if ident { ident_char(chars[s.0]) } else { numeral_char(chars[s.0]) }) {
        lemma_char_run_bounds(chars, lex_step(chars, s), acc.push(chars[s.0]), ident);
    }
}

pub proof fn lemma_token_advances(chars: Seq<char>, s: LexPos)
    requires
        0 <= s.0 < chars.len(),
    ensures
        token_at(chars, s) matches Ok((_, s2)) ==> s.0 < s2.0 <= chars.len(),
{
    let c = chars[s.0];
    lemma_string_body_advances(chars, lex_step(chars, s), Seq::empty());
    lemma_char_run_bounds(chars, lex_step(chars, s), seq!['-'], false);
    lemma_char_run_bounds(chars, lex_step(chars, s), seq![c], true);
    if is_ascii_digit(c) {
        lemma_char_run_bounds(chars, lex_step(chars, s), seq![c], false);
    }
}

/// Splits source text into tokens.
pub struct Lexer {
    chars: Vec<char>,
    pos: usize,
    line: usize,
    col: usize,
}

impl Lexer {
    /// The characters being split.
    pub closed spec fn source(&self) -> Seq<char> {
        self.chars@
    }

    /// Where the lexer stands: index, line, column.
    pub closed spec fn position(&self) -> LexPos {
        (self.pos as int, self.line as int, self.col as int)
    }

    /// Positions and counters stay within the input, so no count overflows.
    pub closed spec fn wf(&self) -> bool {
        &&& self.chars.len() < usize::MAX
        &&& self.pos <= self.chars.len()
        &&& 1 <= self.line <= self.pos + 1
        &&& self.col <= self.pos
    }

    /// A lexer at the start (line 1, column 0) of `input`.
    pub fn new(input: &str) -> (r: Self)
        requires
            input@.len() < usize::MAX,
        ensures
            r.wf(),
            r.source() == input@,
            r.position() == (0int, 1int, 0int),
    {
        Lexer { chars: chars_of(input), pos: 0, line: 1, col: 0 }
    }

    fn peek(&self) -> (r: Option<char>)
        requires
            self.wf(),
        ensures
            r == (if self.pos < self.chars.len() { Some(self.chars@[self.pos as int]) } else { None::<char> }),
    {
        if self.pos < self.chars.len() {
            Some(self.chars[self.pos])
        } else {
            None
        }
    }

    fn peek_next(&self) -> (r: Option<char>)
        requires
            self.wf(),
        ensures
            r == (if self.pos + 1 < self.chars.len() { Some(self.chars@[self.pos + 1]) } else { None::<char> }),
    {
        if self.pos + 1 < self.chars.len() {
            Some(self.chars[self.pos + 1])
        } else {
            None
        }
    }

    fn advance(&mut self) -> (r: Option<char>)
        requires
            old(self).wf(),
        ensures
            final(self).wf(),
            final(self).chars@ == old(self).chars@,
            final(self).position() == lex_step(old(self).chars@, old(self).position()),
            r == (if old(self).pos < old(self).chars.len() { Some(old(self).chars@[old(self).pos as int]) } else { None::<char> }),
    {
        if self.pos < self.chars.len() {
            let ch = self.chars[self.pos];
            self.pos = self.pos + 1;
            if ch == '\n' {
                self.line = self.line + 1;
                self.col = 0;
            } else {
                self.col = self.col + 1;
            }
            Some(ch)
        } else {
            None
        }
    }

    fn skip_whitespace_and_comments(&mut self)
        requires
            old(self).wf(),
        ensures
            final(self).wf(),
            final(self).chars@ == old(self).chars@,
            final(self).position() == skip_trivia(old(self).chars@, old(self).position(), false),
    {
        let ghost chars = self.chars@;
        let ghost target = skip_trivia(chars, self.position(), false);
        loop
            invariant
                self.wf(),
                self.chars@ == chars,
                skip_trivia(chars, self.position(), false) == target,
                chars == old(self).chars@,
                target == skip_trivia(old(self).chars@, old(self).position(), false),
            decreases self.chars.len() - self.pos,
        {
            let ghost p0 = self.pos;
            let mut ws = match self.peek() {
                Some(c) => is_whitespace(c),
                None => false,
            };
            while ws
                invariant
                    self.wf(),
                    self.chars@ == chars,
                    skip_trivia(chars, self.position(), false) == target,
                    ws == (self.pos < chars.len() && unicode_whitespace(chars[self.pos as int])),
                    self.pos >= p0,
                decreases self.chars.len() - self.pos,
            {
                self.advance();
                ws = match self.peek() {
                    Some(c) => is_whitespace(c),
                    None => false,
                };
            }
            if self.peek() == Some('/') && self.peek_next() == Some('/') {
                self.advance();
                self.advance();
                let mut in_comment = match self.peek() {
                    Some(c) => c != '\n',
                    None => false,
                };
                while in_comment
                    invariant
                        self.wf(),
                        self.chars@ == chars,
                        skip_trivia(chars, self.position(), true) == target,
                        in_comment == (self.pos < chars.len() && chars[self.pos as int] != '\n'),
                        self.pos >= p0 + 2,
                    decreases self.chars.len() - self.pos,
                {
                    self.advance();
                    in_comment = match self.peek() {
                        Some(c) => c != '\n',
                        None => false,
                    };
                }
            } else {
                return;
            }
        }
    }

    /// Splits the rest of the input into tokens, ending with `Eof`.
    pub fn tokenize(&mut self) -> (r: Result<Vec<Spanned>, LexError>)
        requires
            old(self).wf(),
        ensures
            final(self).wf(),
            final(self).source() == old(self).source(),
            match r {
                Ok(v) => lex_from(old(self).source(), old(self).position(), Seq::empty()) == Ok::<Seq<Spanned>, LexError>(v@),
                Err(e) => lex_from(old(self).source(), old(self).position(), Seq::empty()) == Err::<Seq<Spanned>, LexError>(e),
            },
    {
        let ghost chars = self.chars@;
        let ghost target = lex_from(chars, self.position(), Seq::empty());
        let mut tokens: Vec<Spanned> = Vec::new();
        loop
            invariant
                self.wf(),
                self.chars@ == chars,
                lex_from(chars, self.position(), tokens@) == target,
                chars == old(self).chars@,
                target == lex_from(old(self).chars@, old(self).position(), Seq::empty()),
            decreases self.chars.len() - self.pos,
        {
            let ghost s0 = self.position();
            self.skip_whitespace_and_comments();
            proof {
                lemma_skip_trivia_bounds(chars, s0, false);
            }
            let line = self.line;
            let col = self.col;
            match self.peek() {
                None => {
                    tokens.push((Token::Eof, line, col));
                    return Ok(tokens);
                },
                Some(c) => {
                    let ghost s1 = self.position();
                    proof {
                        lemma_token_advances(chars, s1);
                    }
                    match self.lex_token(c) {
                        Ok(tok) => {
                            tokens.push((tok, line, col));
                        },
                        Err(e) => {
                            return Err(e);
                        },
                    }
                },
            }
        }
    }

    fn lex_token(&mut self, c: char) -> (r: Result<Token, LexError>)
        requires
            old(self).wf(),
            old(self).pos < old(self).chars.len(),
            c == old(self).chars@[old(self).pos as int],
        ensures
            final(self).wf(),
            final(self).chars@ == old(self).chars@,
            match token_at(old(self).chars@, old(self).position()) {
                Ok((t, s2)) => r == Ok::<Token, LexError>(t) && final(self).position() == s2,
                Err(e) => r == Err::<Token, LexError>(e),
            },
    {
        if c == '#' { self.advance(); Ok(Token::Hash) }
        else if c == ':' { self.advance(); Ok(Token::Colon) }
        else if c == '=' { self.advance(); Ok(Token::Equals) }
        else if c == ',' { self.advance(); Ok(Token::Comma) }
        else if c == ';' { self.advance(); Ok(Token::Semicolon) }
        else if c == '{' { self.advance(); Ok(Token::LBrace) }
        else if c == '}' { self.advance(); Ok(Token::RBrace) }
        else if c == '<' { self.advance(); Ok(Token::LAngle) }
        else if c == '>' { self.advance(); Ok(Token::RAngle) }
        else if c == '[' { self.advance(); Ok(Token::LBracket) }
        else if c == ']' { self.advance(); Ok(Token::RBracket) }
        else if c == '(' { self.advance(); Ok(Token::LParen) }
        else if c == ')' { self.advance(); Ok(Token::RParen) }
        else if c == '$' { self.advance(); Ok(Token::Dollar) }
        else if c == '!' { self.advance(); Ok(Token::Bang) }
        else if c == '@' { self.advance(); Ok(Token::At) }
        else if c == '^' { self.advance(); Ok(Token::Caret) }
        else if c == '*' { self.advance(); Ok(Token::Star) }
        else if c == '.' { self.advance(); Ok(Token::Dot) }
        else if c == '/' { self.advance(); Ok(Token::Slash) }
        else if c == '"' { self.lex_string() }
        else if '0' <= c && c <= '9' { self.lex_number() }
        else if c == '-' && match self.peek_next() { Some(d) => '0' <= d && d <= '9', None => false } {
            self.lex_number()
        } else if is_alphabetic(c) || c == '_' {
            Ok(self.lex_ident())
        } else {
            Err(LexError::UnexpectedChar { line: self.line, col: self.col, ch: c })
        }
    }

    fn lex_string(&mut self) -> (r: Result<Token, LexError>)
        requires
            old(self).wf(),
            old(self).pos < old(self).chars.len(),
            old(self).chars@[old(self).pos as int] == '"',
        ensures
            final(self).wf(),
            final(self).chars@ == old(self).chars@,
            match string_body(old(self).chars@, lex_step(old(self).chars@, old(self).position()), Seq::empty()) {
                Ok((body, s2)) => r == Ok::<Token, LexError>(Token::StringLit(string_of(body))) && final(self).position() == s2,
                Err(e) => r == Err::<Token, LexError>(e),
            },
    {
        let ghost chars = self.chars@;
        self.advance();
        let ghost target = string_body(chars, self.position(), Seq::empty());
        let mut acc: Vec<char> = Vec::new();
        loop
            invariant
                self.wf(),
                self.chars@ == chars,
                string_body(chars, self.position(), acc@) == target,
                chars == old(self).chars@,
                target == string_body(old(self).chars@, lex_step(old(self).chars@, old(self).position()), Seq::empty()),
            decreases self.chars.len() - self.pos,
        {
            match self.advance() {
                Some(c) => {
                    if c == '"' {
                        return Ok(Token::StringLit(string_from(&acc)));
                    } else if c == '\\' {
                        match self.advance() {
                            Some(e) => {
                                if e == 'n' {
                                    acc.push('\n');
                                } else if e == 't' {
                                    acc.push('\t');
                                } else if e == '"' {
                                    acc.push('"');
                                } else if e == '\\' {
                                    acc.push('\\');
                                } else {
                                    acc.push('\\');
                                    acc.push(e);
                                }
                            },
                            None => {
                                return Err(LexError::UnterminatedEscape);
                            },
                        }
                    } else {
                        acc.push(c);
                    }
                },
                None => {
                    return Err(LexError::UnterminatedString);
                },
            }
        }
    }

    /// Reads characters while they continue a numeral (`ident` false) or an
    /// identifier (`ident` true).
    fn take_run(&mut self, acc: &mut Vec<char>, ident: bool)
        requires
            old(self).wf(),
        ensures
            final(self).wf(),
            final(self).chars@ == old(self).chars@,
            char_run(old(self).chars@, old(self).position(), old(acc)@, ident) == (final(acc)@, final(self).position()),
    {
        let ghost chars = self.chars@;
        let ghost target = char_run(chars, self.position(), acc@, ident);
        let mut more = match self.peek() {
            Some(c) => if ident { is_alphanumeric(c) || c == '_' } else { ('0' <= c && c <= '9') || c == '.' },
            None => false,
        };
        while more
            invariant
                self.wf(),
                self.chars@ == chars,
                char_run(chars, self.position(), acc@, ident) == target,
                more == (self.pos < chars.len() && (if ident { ident_char(chars[self.pos as int]) } else { numeral_char(chars[self.pos as int]) })),
            decreases self.chars.len() - self.pos,
        {
            let c = self.chars[self.pos];
            acc.push(c);
            self.advance();
            more = match self.peek() {
                Some(c) => if ident { is_alphanumeric(c) || c == '_' } else { ('0' <= c && c <= '9') || c == '.' },
                None => false,
            };
        }
    }

    fn lex_number(&mut self) -> (r: Result<Token, LexError>)
        requires
            old(self).wf(),
            numeral_starts(old(self).chars@, old(self).position()),
        ensures
            final(self).wf(),
            final(self).chars@ == old(self).chars@,
            match token_at(old(self).chars@, old(self).position()) {
                Ok((t, s2)) => r == Ok::<Token, LexError>(t) && final(self).position() == s2,
                Err(e) => r == Err::<Token, LexError>(e),
            },
    {
        let ghost chars = self.chars@;
        let mut acc: Vec<char> = Vec::new();
        if self.peek() == Some('-') {
            acc.push('-');
            self.advance();
        }
        self.take_run(&mut acc, false);
        let mut dots: usize = 0;
        let mut i: usize = 0;
        while i < acc.len()
            invariant
                i <= acc.len(),
                dots <= i,
                dots == dot_count(acc@.subrange(0, i as int)),
            decreases acc.len() - i,
        {
            assert(acc@.subrange(0, i + 1).drop_last() == acc@.subrange(0, i as int));
            if acc[i] == '.' {
                dots = dots + 1;
            }
            i = i + 1;
        }
        assert(acc@.subrange(0, acc.len() as int) == acc@);
        let text = string_from(&acc);
        if dots <= 1 {
            Ok(Token::NumberLit(text))
        } else {
            Err(LexError::InvalidNumber { text })
        }
    }

    fn lex_ident(&mut self) -> (r: Token)
        requires
            old(self).wf(),
            old(self).pos < old(self).chars.len(),
            unicode_alphabetic(old(self).chars@[old(self).pos as int]) || old(self).chars@[old(self).pos as int] == '_',
            punct_token(old(self).chars@[old(self).pos as int]) is None,
            old(self).chars@[old(self).pos as int] != '"',
            !numeral_starts(old(self).chars@, old(self).position()),
        ensures
            final(self).wf(),
            final(self).chars@ == old(self).chars@,
            token_at(old(self).chars@, old(self).position()) == Ok::<(Token, LexPos), LexError>((r, final(self).position())),
    {
        let mut acc: Vec<char> = Vec::new();
        let c = self.chars[self.pos];
        acc.push(c);
        assert(acc@ =~= seq![c]);
        self.advance();
        self.take_run(&mut acc, true);
        let text = string_from(&acc);
        if text_is(&text, "true") {
            Token::BoolLit(true)
        } else if text_is(&text, "false") {
            Token::BoolLit(false)
        } else {
            Token::Ident(text)
        }
    }
}

} // verus!
