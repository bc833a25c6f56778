//! Characters, character classes, and the small scanning steps that the
//! lexer is built from.

use vstd::prelude::*;

verus! {

/// Unicode `Uppercase` property of a character.
pub uninterp spec fn upper_char(c: char) -> bool;

/// Unicode `Lowercase` property of a character.
pub uninterp spec fn lower_char(c: char) -> bool;

/// Unicode numeric general categories (`Nd`, `Nl`, `No`).
pub uninterp spec fn numeric_char(c: char) -> bool;

/// Unicode `White_Space` property of a character.
pub uninterp spec fn white_char(c: char) -> bool;

/// Relies on `char::is_uppercase`, which depends on the character alone.
#[verifier::external_body]
pub fn is_upper(c: char) -> (r: bool)
    ensures
        r == upper_char(c),
{
    c.is_uppercase()
}

/// Relies on `char::is_lowercase`, which depends on the character alone.
#[verifier::external_body]
pub fn is_lower(c: char) -> (r: bool)
    ensures
        r == lower_char(c),
{
    c.is_lowercase()
}

/// Relies on `char::is_numeric`, which depends on the character alone.
#[verifier::external_body]
pub fn is_numeric(c: char) -> (r: bool)
    ensures
        r == numeric_char(c),
{
    c.is_numeric()
}

/// Relies on `char::is_whitespace`, which depends on the character alone.
#[verifier::external_body]
pub fn is_white(c: char) -> (r: bool)
    ensures
        r == white_char(c),
{
    c.is_whitespace()
}

/// Relies on `str::chars`: the characters of the text, in order.
#[verifier::external_body]
pub fn chars_of(s: &str) -> (r: Vec<char>)
    ensures
        r@ == s@,
{
    s.chars().collect()
}

/// Relies on `String: FromIterator<&char>`: the text made of these characters.
#[verifier::external_body]
pub fn string_of(v: &Vec<char>) -> (r: String)
    ensures
        r@ == v@,
{
    v.iter().collect()
}

/// Separators between words: space, tab and full stop.
pub open spec fn space_char(c: char) -> bool {
    c == ' ' || c == '\t' || c == '.'
}

pub open spec fn newline_char(c: char) -> bool {
    c == '\r' || c == '\n'
}

pub open spec fn quote_char(c: char) -> bool {
    c == '"' || c == '\''
}

/// ASCII letters: the only characters of a bare word.
pub open spec fn letter_char(c: char) -> bool {
    ('A' <= c && c <= 'Z') || ('a' <= c && c <= 'z')
}

/// The kinds of character runs that the lexer scans.
#[derive(Clone, Copy, Debug)]
pub enum Class {
    Space,
    Letter,
    Lower,
    Numeric,
    StringChar,
    NotCloseParen,
}

pub open spec fn in_class(k: Class, c: char) -> bool {
    match k {
        Class::Space => space_char(c),
        Class::Letter => letter_char(c),
        Class::Lower => lower_char(c),
        Class::Numeric => numeric_char(c),
        Class::StringChar => !newline_char(c) && !quote_char(c),
        Class::NotCloseParen => c != ')',
    }
}

pub fn class_has(k: Class, c: char) -> (r: bool)
    ensures
        r == in_class(k, c),
{
    match k {
        Class::Space => c == ' ' || c == '\t' || c == '.',
        Class::Letter => ('A' <= c && c <= 'Z') || ('a' <= c && c <= 'z'),
        Class::Lower => is_lower(c),
        Class::Numeric => is_numeric(c),
        Class::StringChar => !(c == '\r' || c == '\n') && !(c == '"' || c == '\''),
        Class::NotCloseParen => c != ')',
    }
}

/// End of the longest run of characters of class `k` that starts at `p`.
pub open spec fn run_end(s: Seq<char>, p: int, k: Class) -> int
    decreases s.len() - p,
{
    if 0 <= p < s.len() && in_class(k, s[p]) {
        run_end(s, p + 1, k)
    } else {
        p
    }
}

pub fn scan(s: &Vec<char>, p: usize, k: Class) -> (r: usize)
    requires
        p <= s@.len(),
    ensures
        r == run_end(s@, p as int, k),
        p <= r <= s@.len(),
{
    let mut i: usize = p;
    while i < s.len() && class_has(k, s[i])
        invariant
            p <= i <= s@.len(),
            run_end(s@, i as int, k) == run_end(s@, p as int, k),
        decreases s@.len() - i,
    {
        i = i + 1;
    }
    i
}

/// `c` equals the lower-case ASCII character `t`, ignoring ASCII case.
pub open spec fn ci_char(c: char, t: char) -> bool {
    c == t || ('a' <= t && t <= 'z' && c as u32 + 32 == t as u32)
}

/// The text at `p` starts with `t`, ignoring ASCII case (`t` is lower case).
pub open spec fn tag_ci(s: Seq<char>, p: int, t: Seq<char>) -> bool {
    0 <= p && p + t.len() <= s.len() && forall|i: int| 0 <= i < t.len() ==> ci_char(
        #[trigger] s[p + i],
        t[i],
    )
}

pub fn has_tag(s: &Vec<char>, p: usize, t: &str) -> (r: bool)
    requires
        p <= s@.len(),
    ensures
        r == tag_ci(s@, p as int, t@),
        r ==> p + t@.len() <= usize::MAX,
{
    let n = t.unicode_len();
    if n > s.len() - p {
        return false;
    }
    let lim = s.len();
    let mut i: usize = 0;
    while i < n
        invariant
            n == t@.len(),
            lim == s@.len(),
            p + n <= lim,
            i <= n,
            forall|j: int| 0 <= j < i ==> ci_char(#[trigger] s@[p + j], t@[j]),
        decreases n - i,
    {
        let c = s[p + i];
        let d = t.get_char(i);
        if !(c == d || ('a' <= d && d <= 'z' && c as u32 == d as u32 - 32)) {
            assert(!ci_char(s@[p + i], t@[i as int]));
            return false;
        }
        i = i + 1;
    }
    true
}

pub open spec fn as_int(o: Option<usize>) -> Option<int> {
    match o {
        Some(p) => Some(p as int),
        None => None,
    }
}

pub open spec fn within(o: Option<usize>, s: Seq<char>) -> bool {
    match o {
        Some(p) => p <= s.len(),
        None => true,
    }
}

/// After a successful step that ended at `o`, the tag `t` (ignoring case).
pub open spec fn then_tag(s: Seq<char>, o: Option<int>, t: Seq<char>) -> Option<int> {
    match o {
        Some(p) => if tag_ci(s, p, t) {
            Some(p + t.len())
        } else {
            None
        },
        None => None,
    }
}

/// After a successful step that ended at `o`, one or more separators.
pub open spec fn then_spaces(s: Seq<char>, o: Option<int>) -> Option<int> {
    match o {
        Some(p) => if 0 <= p < s.len() && space_char(s[p]) {
            Some(run_end(s, p, Class::Space))
        } else {
            None
        },
        None => None,
    }
}

/// The first of two alternatives that succeeds.
pub open spec fn either(a: Option<int>, b: Option<int>) -> Option<int> {
    if a is Some {
        a
    } else {
        b
    }
}

pub fn next_tag(s: &Vec<char>, o: Option<usize>, t: &str) -> (r: Option<usize>)
    requires
        within(o, s@),
    ensures
        as_int(r) == then_tag(s@, as_int(o), t@),
        within(r, s@),
        r matches Some(q) ==> (o matches Some(p) && p <= q),
{
    match o {
        Some(p) => if has_tag(s, p, t) {
            let n = t.unicode_len();
            Some(p + n)
        } else {
            None
        },
        None => None,
    }
}

pub fn next_spaces(s: &Vec<char>, o: Option<usize>) -> (r: Option<usize>)
    requires
        within(o, s@),
    ensures
        as_int(r) == then_spaces(s@, as_int(o)),
        within(r, s@),
        r matches Some(q) ==> (o matches Some(p) && p < q),
{
    match o {
        Some(p) => if p < s.len() && class_has(Class::Space, s[p]) {
            Some(scan(s, p + 1, Class::Space))
        } else {
            None
        },
        None => None,
    }
}

pub fn first_of(a: Option<usize>, b: Option<usize>) -> (r: Option<usize>)
    ensures
        as_int(r) == either(as_int(a), as_int(b)),
        r == a || r == b,
{
    if a.is_some() {
        a
    } else {
        b
    }
}

} // verus!
