//! Character classes and string building used across the library.
use vstd::prelude::*;
use vstd::std_specs::iter::IteratorSpec;

verus! {

broadcast use vstd::string::group_string_axioms;

/// The `String` whose characters are `chars`: what `String::from_iter` builds from them.
pub uninterp spec fn string_of(chars: Seq<char>) -> String;

/// Collects characters into a `String` with `FromIterator<char>`.
/// Trusted: the result holds exactly `chars`, and equal character sequences give
/// equal strings (`string_of`).
#[verifier::external_body]
pub(crate) fn string_from_chars(chars: &Vec<char>) -> (s: String)
    ensures
        s == string_of(chars@),
        s@ == chars@,
{
    chars.iter().collect()
}

/// The `String` holding exactly the characters `chars`: `string_of(chars)`,
/// whose text is `chars`. The specifications of the lexer and the parser name
/// the strings they build by `string_of`; a caller learns the text of such a
/// string from this function's contract.
pub fn string_from(chars: &Vec<char>) -> (s: String)
    ensures
        s == string_of(chars@),
        s@ == chars@,
{
    string_from_chars(chars)
}

/// Appends one character with `String::push`.
/// Trusted: the new contents are the old contents followed by `c`.
#[verifier::external_body]
pub(crate) fn push_char(s: &mut String, c: char)
    ensures
        final(s)@ == old(s)@.push(c),
{
    s.push(c)
}

/// The characters of `s`, in order.
pub fn chars_of(s: &str) -> (v: Vec<char>)
    ensures
        v@ == s@,
{
    let mut v: Vec<char> = Vec::new();
    let mut it = s.chars();
    loop
        invariant
            it.obeys_prophetic_iter_laws(),
            it.decrease() is Some,
            v@ + it.remaining() == s@,
        decreases it.decrease()->0,
    {
        match it.next() {
            Some(c) => {
                v.push(c);
            },
            None => {
                return v;
            },
        }
    }
}

/// Whether `c` has the Unicode `White_Space` property, which is what
/// `char::is_whitespace` reports: tab through carriage return, space, NEL,
/// no-break space, ogham space mark, the spaces U+2000 through U+200A, line and
/// paragraph separators, narrow no-break space, medium mathematical space and
/// ideographic space.
pub open spec fn unicode_whitespace(c: char) -> bool {
    ||| ('\u{9}' <= c && c <= '\u{d}')
    ||| c == ' '
    ||| c == '\u{85}'
    ||| c == '\u{a0}'
    ||| c == '\u{1680}'
    ||| ('\u{2000}' <= c && c <= '\u{200a}')
    ||| c == '\u{2028}'
    ||| c == '\u{2029}'
    ||| c == '\u{202f}'
    ||| c == '\u{205f}'
    ||| c == '\u{3000}'
}

/// Whether `c` is white space (`unicode_whitespace`), as `char::is_whitespace`
/// answers.
pub fn is_whitespace(c: char) -> (r: bool)
    ensures
        r == unicode_whitespace(c),
{
    ('\u{9}' <= c && c <= '\u{d}') || c == ' ' || c == '\u{85}' || c == '\u{a0}' || c == '\u{1680}'
        || ('\u{2000}' <= c && c <= '\u{200a}') || c == '\u{2028}' || c == '\u{2029}' || c == '\u{202f}'
        || c == '\u{205f}' || c == '\u{3000}'
}

/// An ASCII character, U+0000 through U+007F.
pub open spec fn is_ascii_char(c: char) -> bool {
    c <= '\u{7f}'
}

/// An ASCII letter `A`..`Z` or `a`..`z`.
pub open spec fn is_ascii_letter(c: char) -> bool {
    ('A' <= c && c <= 'Z') || ('a' <= c && c <= 'z')
}

/// Whether a character beyond ASCII has the Unicode `Alphabetic` property, as
/// `char::is_alphabetic` reports.
pub uninterp spec fn alphabetic_beyond_ascii(c: char) -> bool;

/// Whether a character beyond ASCII is alphabetic or numeric in Unicode, as
/// `char::is_alphanumeric` reports.
pub uninterp spec fn alphanumeric_beyond_ascii(c: char) -> bool;

/// Whether `c` has the Unicode `Alphabetic` property: among ASCII characters
/// exactly the letters.
pub open spec fn unicode_alphabetic(c: char) -> bool {
    if is_ascii_char(c) { is_ascii_letter(c) } else { alphabetic_beyond_ascii(c) }
}

/// Whether `c` is alphabetic or numeric in Unicode: among ASCII characters
/// exactly the letters and the digits.
pub open spec fn unicode_alphanumeric(c: char) -> bool {
    if is_ascii_char(c) { is_ascii_letter(c) || is_ascii_digit(c) } else { alphanumeric_beyond_ascii(c) }
}

/// Calls `char::is_alphabetic`.
/// Trusted: the answer is the Unicode `Alphabetic` property, which among ASCII
/// characters holds of the letters alone; beyond ASCII it depends on `c` alone
/// (`alphabetic_beyond_ascii`), and no value of it is stated.
#[verifier::external_body]
pub(crate) fn is_alphabetic(c: char) -> (r: bool)
    ensures
        r == unicode_alphabetic(c),
        !is_ascii_char(c) ==> r == alphabetic_beyond_ascii(c),
{
    c.is_alphabetic()
}

/// Calls `char::is_alphanumeric`, which std documents as `is_alphabetic() ||
/// is_numeric()`.
/// Trusted: among ASCII characters it holds of the letters and the digits
/// alone; every alphabetic character is alphanumeric; beyond ASCII the answer
/// depends on `c` alone (`alphanumeric_beyond_ascii`).
#[verifier::external_body]
pub(crate) fn is_alphanumeric(c: char) -> (r: bool)
    ensures
        r == unicode_alphanumeric(c),
        !is_ascii_char(c) ==> r == alphanumeric_beyond_ascii(c),
        unicode_alphabetic(c) ==> r,
{
    c.is_alphanumeric()
}

/// An ASCII decimal digit `0`..`9`.
pub open spec fn is_ascii_digit(c: char) -> bool {
    '0' <= c && c <= '9'
}

/// An ASCII upper-case letter `A`..`Z`.
pub open spec fn is_ascii_upper(c: char) -> bool {
    'A' <= c && c <= 'Z'
}

/// Whether the string `s` spells exactly the text `w`.
pub fn text_is(s: &String, w: &str) -> (r: bool)
    ensures
        r == (s@ == w@),
{
    let t = w.to_string();
    *s == t
}

/// An owned copy of the text `s`.
pub fn owned(s: &str) -> (r: String)
    ensures
        r@ == s@,
{
    s.to_string()
}

/// Whether two string slices hold the same text.
pub fn str_eq(a: &str, b: &str) -> (r: bool)
    ensures
        r == (a@ == b@),
{
    let x = chars_of(a);
    let y = chars_of(b);
    if x.len() != y.len() {
        return false;
    }
    let mut i: usize = 0;
    while i < x.len()
        invariant
            i <= x.len(),
            x.len() == y.len(),
            x@ == a@,
            y@ == b@,
            forall|j: int| 0 <= j < i ==> x@[j] == y@[j],
        decreases x.len() - i,
    {
        if x[i] != y[i] {
            assert(x@[i as int] != y@[i as int]);
            return false;
        }
        i = i + 1;
    }
    assert(x@ =~= y@);
    true
}

/// Whether two strings hold the same text.
pub fn same_text(a: &String, b: &String) -> (r: bool)
    ensures
        r == (a@ == b@),
{
    *a == *b
}

/// A copy of `s`.
pub fn copy_string(s: &String) -> (r: String)
    ensures
        r == *s,
        r@ == s@,
{
    s.clone()
}

/// The index of the first `.` in `s`, or its length.
pub open spec fn first_dot(s: Seq<char>) -> int
    decreases s.len(),
{
    if s.len() == 0 { 0 } else if s[0] == '.' { 0 } else { 1 + first_dot(s.drop_first()) }
}

pub proof fn lemma_first_dot(s: Seq<char>)
    ensures
        0 <= first_dot(s) <= s.len(),
        first_dot(s) < s.len() ==> s[first_dot(s)] == '.',
        forall|i: int| 0 <= i < first_dot(s) ==> s[i] != '.',
    decreases s.len(),
{
    if s.len() > 0 && s[0] != '.' {
        lemma_first_dot(s.drop_first());
        assert forall|i: int| 0 <= i < first_dot(s) implies s[i] != '.' by {
            if i > 0 {
                assert(s[i] == s.drop_first()[i - 1]);
            }
        };
    }
}

/// The decimal numeral of `n`, most significant digit first, without leading zeros.
pub open spec fn decimal(n: nat) -> Seq<char>
    decreases n,
{
    if n < 10 {
        seq![digit_char(n)]
    } else {
        decimal(n / 10).push(digit_char(n % 10))
    }
}

/// The ASCII digit for a value below ten.
pub open spec fn digit_char(d: nat) -> char {
    if d == 0 { '0' } else if d == 1 { '1' } else if d == 2 { '2' } else if d == 3 { '3' }
    else if d == 4 { '4' } else if d == 5 { '5' } else if d == 6 { '6' } else if d == 7 { '7' }
    else if d == 8 { '8' } else { '9' }
}

fn digit_of(d: usize) -> (c: char)
    requires
        d < 10,
    ensures
        c == digit_char(d as nat),
{
    if d == 0 { '0' } else if d == 1 { '1' } else if d == 2 { '2' } else if d == 3 { '3' }
    else if d == 4 { '4' } else if d == 5 { '5' } else if d == 6 { '6' } else if d == 7 { '7' }
    else if d == 8 { '8' } else { '9' }
}

/// Appends the decimal numeral of `n` to `out`.
pub fn push_decimal(out: &mut String, n: usize)
    ensures
        final(out)@ == old(out)@ + decimal(n as nat),
    decreases n,
{
    if n < 10 {
        push_char(out, digit_of(n));
    } else {
        push_decimal(out, n / 10);
        push_char(out, digit_of(n % 10));
    }
}

} // verus!
