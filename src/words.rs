//! Variable names: simple (`my heart`) and proper (`Johnny B Goode`).

use vstd::prelude::*;
use crate::text::{
    as_int, has_tag, is_upper, next_spaces, next_tag, run_end, scan, tag_ci, then_spaces,
    then_tag, upper_char, Class,
};

verus! {

/// The first of two alternatives that succeeds.
pub open spec fn or_else<A>(a: Option<A>, b: Option<A>) -> Option<A> {
    if a is Some {
        a
    } else {
        b
    }
}

/// Determiner `d`, separators, then a run of lower-case letters.
pub open spec fn determined(s: Seq<char>, p: int, d: Seq<char>) -> Option<(int, Seq<char>)> {
    match then_spaces(s, then_tag(s, Some(p), d)) {
        Some(r) => {
            let w = run_end(s, r, Class::Lower);
            if w > r {
                Some((w, s.subrange(p, p + d.len()) + seq![' '] + s.subrange(r, w)))
            } else {
                None
            }
        },
        None => None,
    }
}

/// A simple variable, stored as `"<determiner> <word>"`.
pub open spec fn simple_variable(s: Seq<char>, p: int) -> Option<(int, Seq<char>)> {
    or_else(
        determined(s, p, "a"@),
        or_else(
            determined(s, p, "an"@),
            or_else(
                determined(s, p, "the"@),
                or_else(determined(s, p, "my"@), determined(s, p, "your"@)),
            ),
        ),
    )
}

/// The word `s[p..q]` is, ignoring case, the keyword `k`.
pub open spec fn span_is(s: Seq<char>, p: int, q: int, k: Seq<char>) -> bool {
    q - p == k.len() && tag_ci(s, p, k)
}

/// The word `s[p..q]` is a reserved single-word keyword.
pub open spec fn reserved(s: Seq<char>, p: int, q: int) -> bool {
    span_is(s, p, q, "and"@) || span_is(s, p, q, "build"@) || span_is(s, p, q, "end"@)
        || span_is(s, p, q, "else"@) || span_is(s, p, q, "if"@) || span_is(s, p, q, "into"@)
        || span_is(s, p, q, "is"@) || span_is(s, p, q, "minus"@) || span_is(s, p, q, "put"@)
        || span_is(s, p, q, "say"@) || span_is(s, p, q, "scream"@) || span_is(s, p, q, "shout"@)
        || span_is(s, p, q, "takes"@) || span_is(s, p, q, "until"@) || span_is(s, p, q, "up"@)
        || span_is(s, p, q, "was"@) || span_is(s, p, q, "while"@) || span_is(
        s,
        p,
        q,
        "whisper"@,
    ) || span_is(s, p, q, "with"@) || span_is(s, p, q, "without"@)
}

/// A title-case word at `p`: an upper-case character, then one or more ASCII
/// letters, and not a reserved keyword. The result is where it ends.
pub open spec fn title_word(s: Seq<char>, p: int) -> Option<int> {
    if 0 <= p < s.len() && upper_char(s[p]) {
        let q = run_end(s, p + 1, Class::Letter);
        if q > p + 1 && !reserved(s, p, q) {
            Some(q)
        } else {
            None
        }
    } else {
        None
    }
}

/// Further title-case words after `q`, each after separators; the text is
/// each word preceded by a single space.
pub open spec fn title_tail(s: Seq<char>, q: int) -> (int, Seq<char>)
    decreases s.len() - q,
{
    match then_spaces(s, Some(q)) {
        Some(a) => match title_word(s, a) {
            Some(b) => if q < b <= s.len() {
                let (e, t) = title_tail(s, b);
                (e, seq![' '] + s.subrange(a, b) + t)
            } else {
                (q, seq![])
            },
            None => (q, seq![]),
        },
        None => (q, seq![]),
    }
}

/// A proper variable: title-case words joined by single spaces.
pub open spec fn proper_variable(s: Seq<char>, p: int) -> Option<(int, Seq<char>)> {
    match title_word(s, p) {
        Some(q) => {
            let (e, t) = title_tail(s, q);
            Some((e, s.subrange(p, q) + t))
        },
        None => None,
    }
}

/// A variable name at `p`, and where it ends.
pub open spec fn variable_at(s: Seq<char>, p: int) -> Option<(int, Seq<char>)> {
    or_else(simple_variable(s, p), proper_variable(s, p))
}

pub open spec fn named(r: Option<(usize, Vec<char>)>) -> Option<(int, Seq<char>)> {
    match r {
        Some((q, v)) => Some((q as int, v@)),
        None => None,
    }
}

/// Appends `s[a..b]` to `out`.
pub fn push_range(out: &mut Vec<char>, s: &Vec<char>, a: usize, b: usize)
    requires
        a <= b <= s@.len(),
    ensures
        final(out)@ == old(out)@ + s@.subrange(a as int, b as int),
{
    let mut i: usize = a;
    while i < b
        invariant
            a <= i <= b <= s@.len(),
            out@ == old(out)@ + s@.subrange(a as int, i as int),
        decreases b - i,
    {
        out.push(s[i]);
        i = i + 1;
        assert(out@ =~= old(out)@ + s@.subrange(a as int, i as int));
    }
}

fn determined_at(s: &Vec<char>, p: usize, d: &str) -> (r: Option<(usize, Vec<char>)>)
    requires
        p <= s@.len(),
    ensures
        named(r) == determined(s@, p as int, d@),
        r matches Some((q, _)) ==> p < q <= s@.len(),
{
    match next_spaces(s, next_tag(s, Some(p), d)) {
        Some(r) => {
            let w = scan(s, r, Class::Lower);
            if w > r {
                let n = d.unicode_len();
                let mut v: Vec<char> = Vec::new();
                push_range(&mut v, s, p, p + n);
                v.push(' ');
                push_range(&mut v, s, r, w);
                Some((w, v))
            } else {
                None
            }
        },
        None => None,
    }
}

pub fn simple_variable_at(s: &Vec<char>, p: usize) -> (r: Option<(usize, Vec<char>)>)
    requires
        p <= s@.len(),
    ensures
        named(r) == simple_variable(s@, p as int),
        r matches Some((q, _)) ==> p < q <= s@.len(),
{
    let a = determined_at(s, p, "a");
    if a.is_some() {
        return a;
    }
    let a = determined_at(s, p, "an");
    if a.is_some() {
        return a;
    }
    let a = determined_at(s, p, "the");
    if a.is_some() {
        return a;
    }
    let a = determined_at(s, p, "my");
    if a.is_some() {
        return a;
    }
    determined_at(s, p, "your")
}

fn word_is(s: &Vec<char>, p: usize, q: usize, k: &str) -> (r: bool)
    requires
        p <= q <= s@.len(),
    ensures
        r == span_is(s@, p as int, q as int, k@),
{
    q - p == k.unicode_len() && has_tag(s, p, k)
}

fn is_reserved(s: &Vec<char>, p: usize, q: usize) -> (r: bool)
    requires
        p <= q <= s@.len(),
    ensures
        r == reserved(s@, p as int, q as int),
{
    word_is(s, p, q, "and") || word_is(s, p, q, "build") || word_is(s, p, q, "end")
        || word_is(s, p, q, "else") || word_is(s, p, q, "if") || word_is(s, p, q, "into")
        || word_is(s, p, q, "is") || word_is(s, p, q, "minus") || word_is(s, p, q, "put")
        || word_is(s, p, q, "say") || word_is(s, p, q, "scream") || word_is(s, p, q, "shout")
        || word_is(s, p, q, "takes") || word_is(s, p, q, "until") || word_is(s, p, q, "up")
        || word_is(s, p, q, "was") || word_is(s, p, q, "while") || word_is(s, p, q, "whisper")
        || word_is(s, p, q, "with") || word_is(s, p, q, "without")
}

fn title_word_at(s: &Vec<char>, p: usize) -> (r: Option<usize>)
    requires
        p <= s@.len(),
    ensures
        as_int(r) == title_word(s@, p as int),
        r matches Some(q) ==> p < q <= s@.len(),
{
    if p < s.len() && is_upper(s[p]) {
        let q = scan(s, p + 1, Class::Letter);
        if q > p + 1 && !is_reserved(s, p, q) {
            Some(q)
        } else {
            None
        }
    } else {
        None
    }
}

fn title_tail_at(s: &Vec<char>, q: usize) -> (r: (usize, Vec<char>))
    requires
        q <= s@.len(),
    ensures
        r.0 == title_tail(s@, q as int).0,
        r.1@ == title_tail(s@, q as int).1,
        q <= r.0 <= s@.len(),
    decreases s@.len() - q,
{
    match next_spaces(s, Some(q)) {
        Some(a) => match title_word_at(s, a) {
            Some(b) => if q < b {
                let (e, t) = title_tail_at(s, b);
                let mut v: Vec<char> = Vec::new();
                v.push(' ');
                push_range(&mut v, s, a, b);
                let mut t = t;
                v.append(&mut t);
                (e, v)
            } else {
                (q, Vec::new())
            },
            None => (q, Vec::new()),
        },
        None => (q, Vec::new()),
    }
}

pub fn proper_variable_at(s: &Vec<char>, p: usize) -> (r: Option<(usize, Vec<char>)>)
    requires
        p <= s@.len(),
    ensures
        named(r) == proper_variable(s@, p as int),
        r matches Some((q, _)) ==> p < q <= s@.len(),
{
    match title_word_at(s, p) {
        Some(q) => {
            let (e, t) = title_tail_at(s, q);
            let mut v: Vec<char> = Vec::new();
            push_range(&mut v, s, p, q);
            let mut t = t;
            v.append(&mut t);
            Some((e, v))
        },
        None => None,
    }
}

pub fn variable_here(s: &Vec<char>, p: usize) -> (r: Option<(usize, Vec<char>)>)
    requires
        p <= s@.len(),
    ensures
        named(r) == variable_at(s@, p as int),
        r matches Some((q, _)) ==> p < q <= s@.len(),
{
    let a = simple_variable_at(s, p);
    if a.is_some() {
        a
    } else {
        proper_variable_at(s, p)
    }
}

} // verus!
