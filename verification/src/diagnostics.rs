//! Reading a whole source text, and the texts of the errors that reading gives.
use vstd::prelude::*;
use crate::ast::File;
use crate::compiler::UnresolvedStruct;
use crate::messages::msg_unresolved;
use crate::compiler::typescript::{number_to_ts, number_ts, push_range, strip_trailing_zeros};
use crate::grammar::{ParseError, p_file};
use crate::lexer::{LexError, Lexer, Token, lex};
use crate::parser::Parser;
use crate::text::{chars_of, decimal, first_dot, lemma_first_dot, push_char, push_decimal};
use crate::validator::lemma_push_contains;
use crate::view::FileV;

verus! {

/// Why a source text is not a WST file: it does not split into tokens, or the
/// tokens do not form a file.
#[derive(Debug, Clone, PartialEq)]
pub enum SourceError {
    Lex(LexError),
    Parse(ParseError),
}

/// What reading the source text `src` gives.
pub open spec fn read_source(src: Seq<char>) -> Result<FileV, SourceError> {
    match lex(src) {
        Err(e) => Err(SourceError::Lex(e)),
        Ok(tokens) => match p_file(tokens) {
            Ok((f, _)) => Ok(f),
            Err(e) => Err(SourceError::Parse(e)),
        },
    }
}

/// Splits `src` into tokens and reads them as a WST file.
pub fn parse_source(src: &str) -> (r: Result<File, SourceError>)
    requires
        src@.len() < usize::MAX,
    ensures
        match read_source(src@) {
            Ok(f) => r is Ok && r->Ok_0@ == f,
            Err(e) => r == Err::<File, SourceError>(e),
        },
{
    let mut lexer = Lexer::new(src);
    match lexer.tokenize() {
        Err(e) => Err(SourceError::Lex(e)),
        Ok(tokens) => {
            let mut parser = Parser::new(tokens);
            match parser.parse_file() {
                Ok(f) => Ok(f),
                Err(e) => Err(SourceError::Parse(e)),
            }
        },
    }
}

/// What `char::escape_debug` yields for `c`: the way `Debug` writes a
/// character, with both quotes escaped.
pub uninterp spec fn debug_escape(c: char) -> Seq<char>;

/// Collects `char::escape_debug` into a `String`.
/// Trusted: the result is `debug_escape(c)`, which depends on `c` alone; as std
/// documents for these escapes, tab, carriage return, line feed, backslash and
/// both quotes get a backslash escape, and other printable ASCII characters
/// (U+0020 to U+007E) stand for themselves. What it yields for other characters
/// (`\0`, `\u{..}` escapes of non-printable and grapheme-extending characters)
/// comes from std's Unicode tables and is not stated.
#[verifier::external_body]
fn escape_debug(c: char) -> (r: String)
    ensures
        r@ == debug_escape(c),
        c == '\t' ==> r@ == seq!['\\', 't'],
        c == '\r' ==> r@ == seq!['\\', 'r'],
        c == '\n' ==> r@ == seq!['\\', 'n'],
        c == '\\' || c == '\'' || c == '"' ==> r@ == seq!['\\', c],
        ' ' <= c && c <= '~' && c != '\\' && c != '\'' && c != '"' ==> r@ == seq![c],
{
    c.escape_debug().collect()
}

/// How a character is written inside a quoted text of an error message, as
/// `Debug` writes it: the quote that does not enclose the text (`q` is the one
/// that does) stands for itself, any other character as `char::escape_debug`
/// gives it.
pub open spec fn escaped_char(c: char, q: char) -> Seq<char> {
    if (q == '\'' && c == '"') || (q == '"' && c == '\'') { seq![c] } else { debug_escape(c) }
}

pub open spec fn escaped_text(s: Seq<char>) -> Seq<char>
    decreases s.len(),
{
    if s.len() == 0 { Seq::empty() } else { escaped_text(s.drop_last()) + escaped_char(s.last(), '"') }
}

/// A text in double quotes, escaped.
pub open spec fn quoted(s: Seq<char>) -> Seq<char> {
    seq!['"'] + escaped_text(s) + seq!['"']
}

/// A numeral as a decimal number: its shortest form, with `.0` when it is whole.
pub open spec fn decimal_text(text: Seq<char>) -> Seq<char> {
    let n = number_ts(text);
    if n.contains('.') { n } else { n + ".0"@ }
}

/// A numeral without its sign.
pub open spec fn numeral_body(text: Seq<char>) -> Seq<char> {
    if text.len() > 0 && text[0] == '-' { text.drop_first() } else { text }
}

/// The digits of a numeral, whole part then fraction, without sign or point.
pub open spec fn numeral_digits(text: Seq<char>) -> Seq<char> {
    let b = numeral_body(text);
    let d = first_dot(b);
    b.subrange(0, d) + if d < b.len() { b.subrange(d + 1, b.len() as int) } else { Seq::empty() }
}

/// The number of `0` digits that `s` starts with.
pub open spec fn leading_zeros(s: Seq<char>) -> nat
    decreases s.len(),
{
    if s.len() > 0 && s[0] == '0' { 1 + leading_zeros(s.drop_first()) } else { 0 }
}

/// A number with sign `neg`, significant `digits` and the point after
/// `point` of them is not zero and has a decimal exponent of at least 16 or at
/// most -5: it is written in scientific form.
pub open spec fn scientific_parts(digits: Seq<char>, point: int) -> bool {
    let z = leading_zeros(digits);
    z < digits.len() && (point >= z + 17 || z >= point + 4)
}

/// Such a number in scientific form: the significant digits with a point after
/// the first (none when there is one digit), then `e` and the decimal exponent.
pub open spec fn scientific_parts_text(neg: bool, digits: Seq<char>, point: int) -> Seq<char> {
    let z = leading_zeros(digits);
    let mant = strip_trailing_zeros(digits.subrange(z as int, digits.len() as int));
    mantissa_text(neg, mant) + seq!['e'] + exponent_text(point, z as int)
}

/// The significant digits `mant`, with a point after the first (none when
/// there is one digit), and a sign when `neg`.
pub open spec fn mantissa_text(neg: bool, mant: Seq<char>) -> Seq<char> {
    (if neg { seq!['-'] } else { Seq::empty() }) + seq![mant[0]]
        + (if mant.len() > 1 { seq!['.'] + mant.subrange(1, mant.len() as int) } else { Seq::empty() })
}

/// The decimal exponent of a number whose first significant digit is digit `z`
/// and whose point stands after `point` digits.
pub open spec fn exponent_text(point: int, z: int) -> Seq<char> {
    if point > z { decimal((point - z - 1) as nat) } else { seq!['-'] + decimal((z + 1 - point) as nat) }
}

/// The numeral is written in scientific form.
pub open spec fn scientific(text: Seq<char>) -> bool {
    scientific_parts(numeral_digits(text), first_dot(numeral_body(text)))
}

/// The numeral in scientific form.
pub open spec fn scientific_text(text: Seq<char>) -> Seq<char> {
    scientific_parts_text(text.len() > 0 && text[0] == '-', numeral_digits(text), first_dot(numeral_body(text)))
}

/// How an error message shows a number: in scientific form when its exponent
/// is at least 16 or at most -5, else as a decimal with a fraction.
pub open spec fn number_text(text: Seq<char>) -> Seq<char> {
    if scientific(text) { scientific_text(text) } else { decimal_text(text) }
}

/// How an error message shows a token.
pub open spec fn token_text(t: Token) -> Seq<char> {
    match t {
        Token::Ident(s) => "Ident("@ + quoted(s@) + ")"@,
        Token::StringLit(s) => "StringLit("@ + quoted(s@) + ")"@,
        Token::NumberLit(s) => "NumberLit("@ + number_text(s@) + ")"@,
        Token::BoolLit(b) => if b { "BoolLit(true)"@ } else { "BoolLit(false)"@ },
        Token::Hash => "Hash"@,
        Token::Colon => "Colon"@,
        Token::Equals => "Equals"@,
        Token::Comma => "Comma"@,
        Token::Semicolon => "Semicolon"@,
        Token::LBrace => "LBrace"@,
        Token::RBrace => "RBrace"@,
        Token::LAngle => "LAngle"@,
        Token::RAngle => "RAngle"@,
        Token::LBracket => "LBracket"@,
        Token::RBracket => "RBracket"@,
        Token::LParen => "LParen"@,
        Token::RParen => "RParen"@,
        Token::Dollar => "Dollar"@,
        Token::Bang => "Bang"@,
        Token::At => "At"@,
        Token::Caret => "Caret"@,
        Token::Star => "Star"@,
        Token::Dot => "Dot"@,
        Token::Slash => "Slash"@,
        Token::Eof => "Eof"@,
    }
}

/// `line:col: ` at the start of a message.
pub open spec fn at(line: usize, col: usize) -> Seq<char> {
    decimal(line as nat) + ":"@ + decimal(col as nat) + ": "@
}

/// The message of a parse error.
pub open spec fn parse_error_text(e: ParseError) -> Seq<char> {
    match e {
        ParseError::ExpectedIdent { line, col, got } => at(line, col) + "Expected identifier, got "@ + token_text(got),
        ParseError::ExpectedToken { line, col, expected, got } => at(line, col) + "Expected "@ + token_text(expected) + ", got "@ + token_text(got),
        ParseError::ExpectedCommaOrClose { line, col, got } => at(line, col) + "Expected ',' or closing delimiter, got "@ + token_text(got),
        ParseError::ImportKeyword { got } => "Expected 'import' after '@', got '"@ + got@ + "'"@,
        ParseError::CopyKeyword { got } => "Expected 'copy' after '^', got '"@ + got@ + "'"@,
        ParseError::ExpectedImportName { line, col, got } => at(line, col) + "Expected type name or '}', got "@ + token_text(got),
        ParseError::MissingImportPath => "Expected import path"@,
        ParseError::PrivateConst { line, col } => at(line, col) + "'const' cannot be 'private'"@,
        ParseError::UnknownDefinition { line, col, private, got } => at(line, col)
            + "Expected 'enum', 'variant', 'struct', 'protocol', or 'const'"@
            + (if private { " after 'private', "@ } else { ", "@ }) + "got '"@ + got@ + "'"@,
        ParseError::ExpectedCase { line, col, got } => at(line, col) + "Expected case name or '}', got "@ + token_text(got),
        ParseError::CopyAfterField { line, col } => at(line, col) + "'copy' must appear before all field definitions"@,
        ParseError::ExpectedStructMember { line, col, got } => at(line, col) + "Expected 'copy', 'assert', field name, or '}', got "@ + token_text(got),
        ParseError::ExpectedAssertRef { line, col, got } => at(line, col) + "Expected '(' or assertion name after 'assert', got "@ + token_text(got),
        ParseError::AssertionParamKind { line, col, got } => at(line, col) + "Expected 'struct' as assertion parameter type, got '"@ + got@ + "'"@,
        ParseError::ExpectedForOrClose { line, col, got } => at(line, col) + "Expected 'for' or '}' in assertion body, got "@ + token_text(got),
        ParseError::ExpectedIn { line, col, got } => at(line, col) + "Expected 'in' after loop variable, got '"@ + got@ + "'"@,
        ParseError::UnknownCheck { line, col, got } => at(line, col) + "Unknown assertion check '"@ + got@ + "'; expected 'haskey'"@,
        ParseError::ExpectedCheckOrClose { line, col, got } => at(line, col) + "Expected assertion check or '}' in for body, got "@ + token_text(got),
        ParseError::ExpectedExcludedName { line, col, got } => at(line, col) + "Expected field name string or ']', got "@ + token_text(got),
        ParseError::UnknownOp { line, col, op } => at(line, col) + "Unknown @-op '"@ + op@ + "'; expected 'exclude'"@,
        ParseError::ExpectedCopySource { line, col, got } => at(line, col) + "Expected struct name or @-op after 'copy', got "@ + token_text(got),
        ParseError::ExpectedBraceOrCase { line, col } => at(line, col) + "Expected '{' or '.Case' after type name in expression"@,
        ParseError::ExpectedExpr { line, col, got } => at(line, col) + "Expected expression value, got "@ + token_text(got),
        ParseError::ExpectedLiteralField { line, col, got } => at(line, col) + "Expected field name or '}' in struct literal, got "@ + token_text(got),
        ParseError::ExpectedEndpoint { line, col, got } => at(line, col) + "Expected endpoint name (string literal) or '}', got "@ + token_text(got),
        ParseError::ExpectedType { line, col, got } => at(line, col) + "Expected type, got "@ + token_text(got),
        ParseError::ExpectedPrimitive { line, col, got } => at(line, col) + "Expected primitive type, got '"@ + got@ + "'"@,
        ParseError::InlineTagLine { line, col } => at(line, col)
            + "Inline tags must be on the same line as their field; use [...] for multi-line tags"@,
        ParseError::ExpectedTagValue { line, col, got } => at(line, col) + "Expected tag value (string, number, or bool), got "@ + token_text(got),
    }
}

/// The message of a lexing error.
pub open spec fn lex_error_text(e: LexError) -> Seq<char> {
    match e {
        LexError::UnexpectedChar { line, col, ch } => at(line, col) + "Unexpected character: '"@ + escaped_char(ch, '\'') + "'"@,
        LexError::UnterminatedEscape => "Unterminated string escape"@,
        LexError::UnterminatedString => "Unterminated string literal"@,
        LexError::InvalidNumber { text } => "Invalid number: "@ + text@,
    }
}

/// The message of an error from reading a source text.
pub open spec fn source_error_text(e: SourceError) -> Seq<char> {
    match e {
        SourceError::Lex(l) => lex_error_text(l),
        SourceError::Parse(p) => parse_error_text(p),
    }
}

fn write_escaped_char(out: &mut String, c: char, q: char)
    ensures
        final(out)@ == old(out)@ + escaped_char(c, q),
{
    if (q == '\'' && c == '"') || (q == '"' && c == '\'') {
        push_char(out, c);
    } else {
        let e = escape_debug(c);
        out.append(e.as_str());
    }
}

fn write_quoted(out: &mut String, s: &String)
    ensures
        final(out)@ == old(out)@ + quoted(s@),
{
    let ghost before = out@;
    let cs = chars_of(s.as_str());
    push_char(out, '"');
    let mut i: usize = 0;
    while i < cs.len()
        invariant
            i <= cs.len(),
            cs@ == s@,
            out@ == before + seq!['"'] + escaped_text(cs@.subrange(0, i as int)),
        decreases cs.len() - i,
    {
        assert(cs@.subrange(0, i + 1).drop_last() =~= cs@.subrange(0, i as int));
        write_escaped_char(out, cs[i], '"');
        i = i + 1;
        assert(out@ =~= before + seq!['"'] + escaped_text(cs@.subrange(0, i as int)));
    }
    assert(cs@.subrange(0, cs.len() as int) =~= cs@);
    push_char(out, '"');
    assert(out@ =~= before + quoted(s@));
}

/// The sign, the digits (`numeral_digits`) and the position of the point
/// (`first_dot` of the body) of a numeral.
fn numeral_parts(text: &String) -> (r: (bool, Vec<char>, usize))
    ensures
        r.0 == (text@.len() > 0 && text@[0] == '-'),
        r.1@ == numeral_digits(text@),
        r.2 == first_dot(numeral_body(text@)),
{
    let cs = chars_of(text.as_str());
    let n = cs.len();
    let neg = n > 0 && cs[0] == '-';
    let start: usize = if neg { 1 } else { 0 };
    let ghost body = numeral_body(text@);
    assert(body =~= cs@.subrange(start as int, n as int));
    let mut d = start;
    assert(body.subrange(0, body.len() as int) =~= body);
    while d < n && cs[d] != '.'
        invariant
            start <= d <= n,
            n == cs.len(),
            cs@ == text@,
            body == cs@.subrange(start as int, n as int),
            first_dot(body) == (d - start) + first_dot(cs@.subrange(d as int, n as int)),
        decreases n - d,
    {
        assert(cs@.subrange(d as int, n as int).drop_first() =~= cs@.subrange(d + 1, n as int));
        d = d + 1;
    }
    proof {
        lemma_first_dot(body);
        if d < n {
            assert(cs@.subrange(d as int, n as int)[0] == '.');
        } else {
            assert(cs@.subrange(d as int, n as int).len() == 0);
        }
        assert(first_dot(body) == d - start);
    }
    let mut digits: Vec<char> = Vec::new();
    let mut i = start;
    while i < d
        invariant
            start <= i <= d,
            d <= n,
            n == cs.len(),
            digits@ == cs@.subrange(start as int, i as int),
        decreases d - i,
    {
        digits.push(cs[i]);
        i = i + 1;
        assert(digits@ =~= cs@.subrange(start as int, i as int));
    }
    let ghost w = digits@;
    if d < n {
        let mut k = d + 1;
        assert(digits@ =~= w + cs@.subrange(d + 1, d + 1));
        while k < n
            invariant
                d + 1 <= k <= n,
                n == cs.len(),
                digits@ == w + cs@.subrange(d + 1, k as int),
            decreases n - k,
        {
            digits.push(cs[k]);
            k = k + 1;
            assert(digits@ =~= w + cs@.subrange(d + 1, k as int));
        }
        assert(body.subrange(d - start + 1, body.len() as int) =~= cs@.subrange(d + 1, n as int));
    } else {
        assert(digits@ =~= w + Seq::<char>::empty());
    }
    assert(body.subrange(0, first_dot(body)) =~= cs@.subrange(start as int, d as int));
    assert(digits@ =~= numeral_digits(text@));
    (neg, digits, d - start)
}

fn count_leading_zeros(digits: &Vec<char>) -> (z: usize)
    ensures
        z == leading_zeros(digits@),
        z < digits.len() ==> digits@[z as int] != '0',
        z <= digits.len(),
{
    let len = digits.len();
    let mut z: usize = 0;
    assert(digits@.subrange(0, len as int) =~= digits@);
    while z < len && digits[z] == '0'
        invariant
            z <= len,
            len == digits.len(),
            leading_zeros(digits@) == z + leading_zeros(digits@.subrange(z as int, len as int)),
        decreases len - z,
    {
        assert(digits@.subrange(z as int, len as int).drop_first() =~= digits@.subrange(z + 1, len as int));
        z = z + 1;
    }
    if z < len {
        assert(digits@.subrange(z as int, len as int)[0] != '0');
    }
    z
}

/// The end of the significant digits that start at `z`: `digits[z..j]` is
/// `strip_trailing_zeros(digits[z..])`.
fn significant_end(digits: &Vec<char>, z: usize) -> (j: usize)
    requires
        z < digits.len(),
        digits@[z as int] != '0',
    ensures
        z + 1 <= j <= digits.len(),
        strip_trailing_zeros(digits@.subrange(z as int, digits.len() as int)) == digits@.subrange(z as int, j as int),
{
    let len = digits.len();
    let mut j = len;
    assert(digits@.subrange(z as int, len as int) =~= digits@.subrange(z as int, j as int));
    while j > z + 1 && digits[j - 1] == '0'
        invariant
            z + 1 <= j <= len,
            len == digits.len(),
            digits@[z as int] != '0',
            strip_trailing_zeros(digits@.subrange(z as int, len as int)) == strip_trailing_zeros(digits@.subrange(z as int, j as int)),
        decreases j,
    {
        assert(digits@.subrange(z as int, j as int).drop_last() =~= digits@.subrange(z as int, j - 1));
        j = j - 1;
    }
    assert(digits@.subrange(z as int, j as int).last() != '0');
    j
}

fn write_mantissa(out: &mut String, neg: bool, digits: &Vec<char>, z: usize, j: usize)
    requires
        z < j <= digits.len(),
    ensures
        final(out)@ == old(out)@ + mantissa_text(neg, digits@.subrange(z as int, j as int)),
{
    let ghost before = out@;
    let ghost mant = digits@.subrange(z as int, j as int);
    if neg {
        push_char(out, '-');
    }
    push_char(out, digits[z]);
    if j > z + 1 {
        push_char(out, '.');
        push_range(out, digits, z + 1, j);
        assert(mant.subrange(1, mant.len() as int) =~= digits@.subrange(z + 1, j as int));
    }
    assert(out@ =~= before + mantissa_text(neg, mant));
}

fn write_exponent(out: &mut String, point: usize, z: usize)
    requires
        z < usize::MAX,
    ensures
        final(out)@ == old(out)@ + exponent_text(point as int, z as int),
{
    let ghost before = out@;
    if point > z {
        push_decimal(out, point - z - 1);
    } else {
        push_char(out, '-');
        push_decimal(out, z + 1 - point);
    }
    assert(out@ =~= before + exponent_text(point as int, z as int));
}

fn write_scientific_parts(out: &mut String, neg: bool, digits: &Vec<char>, point: usize) -> (r: bool)
    ensures
        r == scientific_parts(digits@, point as int),
        r ==> final(out)@ == old(out)@ + scientific_parts_text(neg, digits@, point as int),
        !r ==> final(out)@ == old(out)@,
{
    let ghost before = out@;
    let len = digits.len();
    let z = count_leading_zeros(digits);
    if z >= len {
        return false;
    }
    let sci = (point >= 17 && point - 17 >= z) || (z >= 4 && z - 4 >= point);
    if !sci {
        return false;
    }
    let j = significant_end(digits, z);
    write_mantissa(out, neg, digits, z, j);
    push_char(out, 'e');
    write_exponent(out, point, z);
    assert(out@ =~= before + scientific_parts_text(neg, digits@, point as int));
    true
}

/// Writes the numeral in scientific form when `scientific` holds of it, and
/// nothing otherwise; tells which.
fn write_scientific(out: &mut String, text: &String) -> (r: bool)
    ensures
        r == scientific(text@),
        r ==> final(out)@ == old(out)@ + scientific_text(text@),
        !r ==> final(out)@ == old(out)@,
{
    let (neg, digits, point) = numeral_parts(text);
    write_scientific_parts(out, neg, &digits, point)
}

fn write_number(out: &mut String, text: &String)
    ensures
        final(out)@ == old(out)@ + number_text(text@),
{
    if !write_scientific(out, text) {
        write_decimal(out, text);
    }
}

fn write_decimal(out: &mut String, text: &String)
    ensures
        final(out)@ == old(out)@ + decimal_text(text@),
{
    let ghost before = out@;
    let mut n = String::new();
    number_to_ts(&mut n, text);
    assert(n@ =~= number_ts(text@));
    let cs = chars_of(n.as_str());
    let mut has_dot = false;
    let mut i: usize = 0;
    while i < cs.len()
        invariant
            i <= cs.len(),
            has_dot == cs@.subrange(0, i as int).contains('.'),
        decreases cs.len() - i,
    {
        assert(cs@.subrange(0, i + 1) =~= cs@.subrange(0, i as int).push(cs@[i as int]));
        proof {
            lemma_push_contains(cs@.subrange(0, i as int), cs@[i as int], '.');
        }
        has_dot = has_dot || cs[i] == '.';
        i = i + 1;
    }
    assert(cs@.subrange(0, cs.len() as int) =~= cs@);
    out.append(n.as_str());
    if !has_dot {
        out.append(".0");
    }
    assert(out@ =~= before + decimal_text(text@));
}

fn write_token(out: &mut String, t: &Token)
    ensures
        final(out)@ == old(out)@ + token_text(*t),
{
    let ghost before = out@;
    match t {
        Token::Ident(s) => {
            out.append("Ident(");
            write_quoted(out, s);
            out.append(")");
        },
        Token::StringLit(s) => {
            out.append("StringLit(");
            write_quoted(out, s);
            out.append(")");
        },
        Token::NumberLit(s) => {
            out.append("NumberLit(");
            write_number(out, s);
            out.append(")");
        },
        Token::BoolLit(b) => {
            if *b {
                out.append("BoolLit(true)");
            } else {
                out.append("BoolLit(false)");
            }
        },
        Token::Hash => out.append("Hash"),
        Token::Colon => out.append("Colon"),
        Token::Equals => out.append("Equals"),
        Token::Comma => out.append("Comma"),
        Token::Semicolon => out.append("Semicolon"),
        Token::LBrace => out.append("LBrace"),
        Token::RBrace => out.append("RBrace"),
        Token::LAngle => out.append("LAngle"),
        Token::RAngle => out.append("RAngle"),
        Token::LBracket => out.append("LBracket"),
        Token::RBracket => out.append("RBracket"),
        Token::LParen => out.append("LParen"),
        Token::RParen => out.append("RParen"),
        Token::Dollar => out.append("Dollar"),
        Token::Bang => out.append("Bang"),
        Token::At => out.append("At"),
        Token::Caret => out.append("Caret"),
        Token::Star => out.append("Star"),
        Token::Dot => out.append("Dot"),
        Token::Slash => out.append("Slash"),
        Token::Eof => out.append("Eof"),
    }
    assert(out@ =~= before + token_text(*t));
}

fn write_at(out: &mut String, line: usize, col: usize)
    ensures
        final(out)@ == old(out)@ + at(line, col),
{
    let ghost before = out@;
    push_decimal(out, line);
    out.append(":");
    push_decimal(out, col);
    out.append(": ");
    assert(out@ =~= before + at(line, col));
}

impl ParseError {
    /// The message of this error (`parse_error_text`).
    pub fn message(&self) -> (r: String)
        ensures
            r@ == parse_error_text(*self),
    {
        let mut out = String::new();
        match self {
            ParseError::ExpectedIdent { line, col, got } => {
                write_at(&mut out, *line, *col);
                out.append("Expected identifier, got ");
                write_token(&mut out, got);
            },
            ParseError::ExpectedToken { line, col, expected, got } => {
                write_at(&mut out, *line, *col);
                out.append("Expected ");
                write_token(&mut out, expected);
                out.append(", got ");
                write_token(&mut out, got);
            },
            ParseError::ExpectedCommaOrClose { line, col, got } => {
                write_at(&mut out, *line, *col);
                out.append("Expected ',' or closing delimiter, got ");
                write_token(&mut out, got);
            },
            ParseError::ImportKeyword { got } => {
                out.append("Expected 'import' after '@', got '");
                out.append(got.as_str());
                out.append("'");
            },
            ParseError::CopyKeyword { got } => {
                out.append("Expected 'copy' after '^', got '");
                out.append(got.as_str());
                out.append("'");
            },
            ParseError::ExpectedImportName { line, col, got } => {
                write_at(&mut out, *line, *col);
                out.append("Expected type name or '}', got ");
                write_token(&mut out, got);
            },
            ParseError::PrivateConst { line, col } => {
                write_at(&mut out, *line, *col);
                out.append("'const' cannot be 'private'");
            },
            ParseError::UnknownDefinition { line, col, private, got } => {
                write_at(&mut out, *line, *col);
                out.append("Expected 'enum', 'variant', 'struct', 'protocol', or 'const'");
                if *private { out.append(" after 'private', "); } else { out.append(", "); }
                out.append("got '");
                out.append(got.as_str());
                out.append("'");
            },
            ParseError::ExpectedCase { line, col, got } => {
                write_at(&mut out, *line, *col);
                out.append("Expected case name or '}', got ");
                write_token(&mut out, got);
            },
            ParseError::CopyAfterField { line, col } => {
                write_at(&mut out, *line, *col);
                out.append("'copy' must appear before all field definitions");
            },
            ParseError::ExpectedStructMember { line, col, got } => {
                write_at(&mut out, *line, *col);
                out.append("Expected 'copy', 'assert', field name, or '}', got ");
                write_token(&mut out, got);
            },
            ParseError::ExpectedAssertRef { line, col, got } => {
                write_at(&mut out, *line, *col);
                out.append("Expected '(' or assertion name after 'assert', got ");
                write_token(&mut out, got);
            },
            ParseError::AssertionParamKind { line, col, got } => {
                write_at(&mut out, *line, *col);
                out.append("Expected 'struct' as assertion parameter type, got '");
                out.append(got.as_str());
                out.append("'");
            },
            ParseError::ExpectedForOrClose { line, col, got } => {
                write_at(&mut out, *line, *col);
                out.append("Expected 'for' or '}' in assertion body, got ");
                write_token(&mut out, got);
            },
            ParseError::ExpectedIn { line, col, got } => {
                write_at(&mut out, *line, *col);
                out.append("Expected 'in' after loop variable, got '");
                out.append(got.as_str());
                out.append("'");
            },
            ParseError::UnknownCheck { line, col, got } => {
                write_at(&mut out, *line, *col);
                out.append("Unknown assertion check '");
                out.append(got.as_str());
                out.append("'; expected 'haskey'");
            },
            ParseError::ExpectedCheckOrClose { line, col, got } => {
                write_at(&mut out, *line, *col);
                out.append("Expected assertion check or '}' in for body, got ");
                write_token(&mut out, got);
            },
            ParseError::ExpectedExcludedName { line, col, got } => {
                write_at(&mut out, *line, *col);
                out.append("Expected field name string or ']', got ");
                write_token(&mut out, got);
            },
            ParseError::UnknownOp { line, col, op } => {
                write_at(&mut out, *line, *col);
                out.append("Unknown @-op '");
                out.append(op.as_str());
                out.append("'; expected 'exclude'");
            },
            ParseError::ExpectedCopySource { line, col, got } => {
                write_at(&mut out, *line, *col);
                out.append("Expected struct name or @-op after 'copy', got ");
                write_token(&mut out, got);
            },
            ParseError::ExpectedBraceOrCase { line, col } => {
                write_at(&mut out, *line, *col);
                out.append("Expected '{' or '.Case' after type name in expression");
            },
            ParseError::ExpectedExpr { line, col, got } => {
                write_at(&mut out, *line, *col);
                out.append("Expected expression value, got ");
                write_token(&mut out, got);
            },
            ParseError::ExpectedLiteralField { line, col, got } => {
                write_at(&mut out, *line, *col);
                out.append("Expected field name or '}' in struct literal, got ");
                write_token(&mut out, got);
            },
            ParseError::ExpectedEndpoint { line, col, got } => {
                write_at(&mut out, *line, *col);
                out.append("Expected endpoint name (string literal) or '}', got ");
                write_token(&mut out, got);
            },
            ParseError::ExpectedType { line, col, got } => {
                write_at(&mut out, *line, *col);
                out.append("Expected type, got ");
                write_token(&mut out, got);
            },
            ParseError::ExpectedPrimitive { line, col, got } => {
                write_at(&mut out, *line, *col);
                out.append("Expected primitive type, got '");
                out.append(got.as_str());
                out.append("'");
            },
            ParseError::InlineTagLine { line, col } => {
                write_at(&mut out, *line, *col);
                out.append("Inline tags must be on the same line as their field; use [...] for multi-line tags");
            },
            ParseError::ExpectedTagValue { line, col, got } => {
                write_at(&mut out, *line, *col);
                out.append("Expected tag value (string, number, or bool), got ");
                write_token(&mut out, got);
            },
            ParseError::MissingImportPath => {
                out.append("Expected import path");
            },
        }
        assert(out@ =~= parse_error_text(*self));
        out
    }
}

impl LexError {
    /// The message of this error (`lex_error_text`).
    pub fn message(&self) -> (r: String)
        ensures
            r@ == lex_error_text(*self),
    {
        let mut out = String::new();
        match self {
            LexError::UnexpectedChar { line, col, ch } => {
                write_at(&mut out, *line, *col);
                out.append("Unexpected character: '");
                write_escaped_char(&mut out, *ch, '\'');
                out.append("'");
            },
            LexError::UnterminatedEscape => out.append("Unterminated string escape"),
            LexError::UnterminatedString => out.append("Unterminated string literal"),
            LexError::InvalidNumber { text } => {
                out.append("Invalid number: ");
                out.append(text.as_str());
            },
        }
        assert(out@ =~= lex_error_text(*self));
        out
    }
}

impl SourceError {
    /// The message of this error (`source_error_text`).
    pub fn message(&self) -> (r: String)
        ensures
            r@ == source_error_text(*self),
    {
        match self {
            SourceError::Lex(e) => e.message(),
            SourceError::Parse(e) => e.message(),
        }
    }
}

impl UnresolvedStruct {
    /// `Cannot resolve struct 'name' for copy`.
    pub fn message(&self) -> (r: String)
        ensures
            r@ == msg_unresolved(self.name@),
    {
        let mut out = String::new();
        out.append("Cannot resolve struct '");
        out.append(self.name.as_str());
        out.append("' for copy");
        assert(out@ =~= msg_unresolved(self.name@));
        out
    }
}

} // verus!
