//! The word grammar: one symbol at a position, one line of symbols, and the
//! whole text as a list of lines.
//!
//! Each reader is a spec function from a position to where it stops and what
//! it read, and an executable function proved equal to it. Readers that
//! repeat only go on after a step that moved forward; the spec functions
//! state that bound, which keeps them total.

use vstd::prelude::*;
use crate::symbols::{lines_view, symbols_view, tokens_view, Symbol, SymbolV, Token, TokenV};
use crate::text::{
    as_int, chars_of, either, first_of, newline_char, next_spaces, next_tag, run_end,
    scan, string_of, then_spaces, then_tag, within, Class,
};
use crate::words::{or_else, push_range, variable_at, variable_here};

verus! {

/// The symbol `sym`, if the step that ended at `o` succeeded.
pub open spec fn tagged(o: Option<int>, sym: SymbolV) -> Option<(int, SymbolV)> {
    match o {
        Some(q) => Some((q, sym)),
        None => None,
    }
}

pub open spec fn tag_at(s: Seq<char>, p: int, t: Seq<char>) -> Option<int> {
    then_tag(s, Some(p), t)
}

/// `is as high as`, `is as strong as`, `is as big as`.
pub open spec fn as_high_as(s: Seq<char>, p: int) -> Option<int> {
    let a = then_spaces(s, then_tag(s, then_spaces(s, tag_at(s, p, "is"@)), "as"@));
    let b = either(
        then_tag(s, a, "high"@),
        either(then_tag(s, a, "strong"@), then_tag(s, a, "big"@)),
    );
    then_tag(s, then_spaces(s, b), "as"@)
}

/// `is less than`, `is weaker than`, `is lower than`, `is smaller than`.
pub open spec fn less_than(s: Seq<char>, p: int) -> Option<int> {
    let a = then_spaces(s, tag_at(s, p, "is"@));
    let b = either(
        then_tag(s, a, "less"@),
        either(
            then_tag(s, a, "weaker"@),
            either(then_tag(s, a, "lower"@), then_tag(s, a, "smaller"@)),
        ),
    );
    then_tag(s, then_spaces(s, b), "than"@)
}

/// `is higher than`, `is stronger than`, `is bigger than`, `is greater than`.
pub open spec fn greater_than(s: Seq<char>, p: int) -> Option<int> {
    let a = then_spaces(s, tag_at(s, p, "is"@));
    let b = either(
        then_tag(s, a, "higher"@),
        either(
            then_tag(s, a, "stronger"@),
            either(then_tag(s, a, "bigger"@), then_tag(s, a, "greater"@)),
        ),
    );
    then_tag(s, then_spaces(s, b), "than"@)
}

/// Keywords and fixed phrases, tried in order; each matches as a prefix,
/// ignoring case.
pub open spec fn keyword_at(s: Seq<char>, p: int) -> Option<(int, SymbolV)> {
    or_else(tagged(as_high_as(s, p), SymbolV::GreaterThanOrEqual),
    or_else(tagged(less_than(s, p), SymbolV::LessThan),
    or_else(tagged(greater_than(s, p), SymbolV::GreaterThan),
    or_else(tagged(either(tag_at(s, p, "is"@), tag_at(s, p, "was"@)), SymbolV::Is),
    or_else(tagged(tag_at(s, p, "if"@), SymbolV::If),
    or_else(tagged(tag_at(s, p, "build"@), SymbolV::Build),
    or_else(tagged(tag_at(s, p, "up"@), SymbolV::Up),
    or_else(tagged(tag_at(s, p, "knock"@), SymbolV::Knock),
    or_else(tagged(tag_at(s, p, "down"@), SymbolV::Down),
    or_else(tagged(tag_at(s, p, "aint"@), SymbolV::Aint),
    or_else(tagged(either(tag_at(s, p, "say"@), either(tag_at(s, p, "shout"@),
        either(tag_at(s, p, "whisper"@), tag_at(s, p, "scream"@)))), SymbolV::Say),
    or_else(tagged(tag_at(s, p, "and"@), SymbolV::And),
    or_else(tagged(tag_at(s, p, "while"@), SymbolV::While),
    or_else(tagged(tag_at(s, p, "until"@), SymbolV::Until),
    or_else(tagged(either(tag_at(s, p, "end"@), tag_at(s, p, "around we go"@)), SymbolV::Next),
    or_else(tagged(either(tag_at(s, p, "take it to the top"@), tag_at(s, p, "continue"@)),
        SymbolV::Continue),
    or_else(tagged(tag_at(s, p, "give back"@), SymbolV::Return),
    or_else(tagged(tag_at(s, p, "takes"@), SymbolV::Takes),
    or_else(tagged(either(tag_at(s, p, "without"@), tag_at(s, p, "minus"@)), SymbolV::Subtract),
    or_else(tagged(either(tag_at(s, p, "with"@), tag_at(s, p, "plus"@)), SymbolV::Add),
    or_else(tagged(either(tag_at(s, p, "times"@), tag_at(s, p, "of"@)), SymbolV::Times),
    or_else(tagged(tag_at(s, p, "into"@), SymbolV::Where),
    or_else(tagged(tag_at(s, p, "put"@), SymbolV::Put),
    or_else(tagged(tag_at(s, p, "else"@), SymbolV::Else),
    tagged(tag_at(s, p, "nothing"@), SymbolV::Integer(seq!['0']))))))))))))))))))))))))))
}


pub open spec fn found(r: Option<(usize, Symbol)>) -> Option<(int, SymbolV)> {
    match r {
        Some((q, sym)) => Some((q as int, sym@)),
        None => None,
    }
}

pub open spec fn fits(r: Option<(usize, Symbol)>, p: usize, s: Seq<char>) -> bool {
    match r {
        Some((q, _)) => p <= q <= s.len(),
        None => true,
    }
}

fn tag_here(s: &Vec<char>, p: usize, t: &str) -> (r: Option<usize>)
    requires
        p <= s@.len(),
    ensures
        as_int(r) == tag_at(s@, p as int, t@),
        within(r, s@),
        r matches Some(q) ==> p <= q,
{
    next_tag(s, Some(p), t)
}

fn as_high_as_here(s: &Vec<char>, p: usize) -> (r: Option<usize>)
    requires
        p <= s@.len(),
    ensures
        as_int(r) == as_high_as(s@, p as int),
        within(r, s@),
        r matches Some(q) ==> p <= q,
{
    let a = next_spaces(s, next_tag(s, next_spaces(s, tag_here(s, p, "is")), "as"));
    let b = first_of(
        next_tag(s, a, "high"),
        first_of(next_tag(s, a, "strong"), next_tag(s, a, "big")),
    );
    next_tag(s, next_spaces(s, b), "as")
}

fn less_than_here(s: &Vec<char>, p: usize) -> (r: Option<usize>)
    requires
        p <= s@.len(),
    ensures
        as_int(r) == less_than(s@, p as int),
        within(r, s@),
        r matches Some(q) ==> p <= q,
{
    let a = next_spaces(s, tag_here(s, p, "is"));
    let b = first_of(
        next_tag(s, a, "less"),
        first_of(
            next_tag(s, a, "weaker"),
            first_of(next_tag(s, a, "lower"), next_tag(s, a, "smaller")),
        ),
    );
    next_tag(s, next_spaces(s, b), "than")
}

fn greater_than_here(s: &Vec<char>, p: usize) -> (r: Option<usize>)
    requires
        p <= s@.len(),
    ensures
        as_int(r) == greater_than(s@, p as int),
        within(r, s@),
        r matches Some(q) ==> p <= q,
{
    let a = next_spaces(s, tag_here(s, p, "is"));
    let b = first_of(
        next_tag(s, a, "higher"),
        first_of(
            next_tag(s, a, "stronger"),
            first_of(next_tag(s, a, "bigger"), next_tag(s, a, "greater")),
        ),
    );
    next_tag(s, next_spaces(s, b), "than")
}

/// The text of one character.
pub fn single_char_string(c: char) -> (r: String)
    ensures
        r@ == seq![c],
{
    let mut v: Vec<char> = Vec::new();
    v.push(c);
    assert(v@ =~= seq![c]);
    string_of(&v)
}

pub fn keyword_here(s: &Vec<char>, p: usize) -> (r: Option<(usize, Symbol)>)
    requires
        p <= s@.len(),
    ensures
        found(r) == keyword_at(s@, p as int),
        fits(r, p, s@),
{
    if let Some(q) = as_high_as_here(s, p) {
        return Some((q, Symbol::GreaterThanOrEqual));
    }
    if let Some(q) = less_than_here(s, p) {
        return Some((q, Symbol::LessThan));
    }
    if let Some(q) = greater_than_here(s, p) {
        return Some((q, Symbol::GreaterThan));
    }
    if let Some(q) = first_of(tag_here(s, p, "is"), tag_here(s, p, "was")) {
        return Some((q, Symbol::Is));
    }
    if let Some(q) = tag_here(s, p, "if") {
        return Some((q, Symbol::If));
    }
    if let Some(q) = tag_here(s, p, "build") {
        return Some((q, Symbol::Build));
    }
    if let Some(q) = tag_here(s, p, "up") {
        return Some((q, Symbol::Up));
    }
    if let Some(q) = tag_here(s, p, "knock") {
        return Some((q, Symbol::Knock));
    }
    if let Some(q) = tag_here(s, p, "down") {
        return Some((q, Symbol::Down));
    }
    if let Some(q) = tag_here(s, p, "aint") {
        return Some((q, Symbol::Aint));
    }
    if let Some(q) = first_of(
        tag_here(s, p, "say"),
        first_of(
            tag_here(s, p, "shout"),
            first_of(tag_here(s, p, "whisper"), tag_here(s, p, "scream")),
        ),
    ) {
        return Some((q, Symbol::Say));
    }
    if let Some(q) = tag_here(s, p, "and") {
        return Some((q, Symbol::And));
    }
    if let Some(q) = tag_here(s, p, "while") {
        return Some((q, Symbol::While));
    }
    if let Some(q) = tag_here(s, p, "until") {
        return Some((q, Symbol::Until));
    }
    if let Some(q) = first_of(tag_here(s, p, "end"), tag_here(s, p, "around we go")) {
        return Some((q, Symbol::Next));
    }
    if let Some(q) = first_of(tag_here(s, p, "take it to the top"), tag_here(s, p, "continue")) {
        return Some((q, Symbol::Continue));
    }
    if let Some(q) = tag_here(s, p, "give back") {
        return Some((q, Symbol::Return));
    }
    if let Some(q) = tag_here(s, p, "takes") {
        return Some((q, Symbol::Takes));
    }
    if let Some(q) = first_of(tag_here(s, p, "without"), tag_here(s, p, "minus")) {
        return Some((q, Symbol::Subtract));
    }
    if let Some(q) = first_of(tag_here(s, p, "with"), tag_here(s, p, "plus")) {
        return Some((q, Symbol::Add));
    }
    if let Some(q) = first_of(tag_here(s, p, "times"), tag_here(s, p, "of")) {
        return Some((q, Symbol::Times));
    }
    if let Some(q) = tag_here(s, p, "into") {
        return Some((q, Symbol::Where));
    }
    if let Some(q) = tag_here(s, p, "put") {
        return Some((q, Symbol::Put));
    }
    if let Some(q) = tag_here(s, p, "else") {
        return Some((q, Symbol::Else));
    }
    if let Some(q) = tag_here(s, p, "nothing") {
        return Some((q, Symbol::Integer(single_char_string('0'))));
    }
    None
}


/// Further call arguments after `q`: each after `,` or `and`, with optional
/// separators around it.
pub open spec fn arg_tail(s: Seq<char>, q: int) -> (int, Seq<Seq<char>>)
    decreases s.len() - q,
{
    let a = run_end(s, q, Class::Space);
    let comma = if 0 <= a < s.len() && s[a] == ',' {
        Some(a + 1)
    } else {
        None
    };
    match either(comma, tag_at(s, a, "and"@)) {
        Some(b) => match variable_at(s, run_end(s, b, Class::Space)) {
            Some((d, v)) => if q < d <= s.len() {
                let (e, vs) = arg_tail(s, d);
                (e, seq![v] + vs)
            } else {
                (q, seq![])
            },
            None => (q, seq![]),
        },
        None => (q, seq![]),
    }
}

/// An inline call: `<variable> taking <variable> (, or and <variable>)*`.
pub open spec fn taking_at(s: Seq<char>, p: int) -> Option<(int, SymbolV)> {
    match variable_at(s, p) {
        Some((a, target)) => match then_spaces(s, then_tag(s, then_spaces(s, Some(a)), "taking"@)) {
            Some(b) => match variable_at(s, b) {
                Some((c, first)) => {
                    let (e, more) = arg_tail(s, c);
                    Some((e, SymbolV::Taking(target, seq![first] + more)))
                },
                None => None,
            },
            None => None,
        },
        None => None,
    }
}

/// A run of numeric characters, kept as text.
pub open spec fn numeral_at(s: Seq<char>, p: int) -> Option<(int, SymbolV)> {
    let q = run_end(s, p, Class::Numeric);
    if q > p {
        Some((q, SymbolV::Integer(s.subrange(p, q))))
    } else {
        None
    }
}

pub open spec fn variable_symbol_at(s: Seq<char>, p: int) -> Option<(int, SymbolV)> {
    match variable_at(s, p) {
        Some((q, v)) => Some((q, SymbolV::Variable(v))),
        None => None,
    }
}

/// A double-quoted string with no line break or quote inside.
pub open spec fn string_at(s: Seq<char>, p: int) -> Option<(int, SymbolV)> {
    if 0 <= p < s.len() && s[p] == '"' {
        let q = run_end(s, p + 1, Class::StringChar);
        if q < s.len() && s[q] == '"' {
            Some((q + 1, SymbolV::Str(s.subrange(p + 1, q))))
        } else {
            None
        }
    } else {
        None
    }
}

/// A parenthesised comment, up to the first `)`.
pub open spec fn comment_at(s: Seq<char>, p: int) -> Option<(int, SymbolV)> {
    if 0 <= p < s.len() && s[p] == '(' {
        let q = run_end(s, p + 1, Class::NotCloseParen);
        if q < s.len() {
            Some((q + 1, SymbolV::Comment))
        } else {
            None
        }
    } else {
        None
    }
}

/// A bare word of ASCII letters.
pub open spec fn bare_word_at(s: Seq<char>, p: int) -> Option<(int, SymbolV)> {
    let q = run_end(s, p, Class::Letter);
    if q > p {
        Some((q, SymbolV::Words(seq![s.subrange(p, q)])))
    } else {
        None
    }
}

/// One symbol at `p`: the first alternative that matches, in this order.
pub open spec fn word_at(s: Seq<char>, p: int) -> Option<(int, SymbolV)> {
    or_else(
        keyword_at(s, p),
        or_else(
            taking_at(s, p),
            or_else(
                numeral_at(s, p),
                or_else(
                    variable_symbol_at(s, p),
                    or_else(string_at(s, p), or_else(comment_at(s, p), bare_word_at(s, p))),
                ),
            ),
        ),
    )
}

/// The characters `s[a..b]` as a `String`.
pub fn text_between(s: &Vec<char>, a: usize, b: usize) -> (r: String)
    requires
        a <= b <= s@.len(),
    ensures
        r@ == s@.subrange(a as int, b as int),
{
    let mut v: Vec<char> = Vec::new();
    push_range(&mut v, s, a, b);
    assert(v@ =~= s@.subrange(a as int, b as int));
    string_of(&v)
}

fn arg_tail_here(s: &Vec<char>, q: usize) -> (r: (usize, Vec<String>))
    requires
        q <= s@.len(),
    ensures
        r.0 == arg_tail(s@, q as int).0,
        r.1.deep_view() == arg_tail(s@, q as int).1,
        q <= r.0 <= s@.len(),
    decreases s@.len() - q,
{
    let a = scan(s, q, Class::Space);
    let comma = if a < s.len() && s[a] == ',' {
        Some(a + 1)
    } else {
        None
    };
    match first_of(comma, tag_here(s, a, "and")) {
        Some(b) => match variable_here(s, scan(s, b, Class::Space)) {
            Some((d, v)) => if q < d {
                let (e, mut vs) = arg_tail_here(s, d);
                let mut out: Vec<String> = Vec::new();
                out.push(string_of(&v));
                out.append(&mut vs);
                assert(out.deep_view() =~= seq![v@] + arg_tail(s@, d as int).1);
                (e, out)
            } else {
                (q, Vec::new())
            },
            None => (q, Vec::new()),
        },
        None => (q, Vec::new()),
    }
}

fn taking_here(s: &Vec<char>, p: usize) -> (r: Option<(usize, Symbol)>)
    requires
        p <= s@.len(),
    ensures
        found(r) == taking_at(s@, p as int),
        fits(r, p, s@),
{
    match variable_here(s, p) {
        Some((a, target)) => match next_spaces(s, next_tag(s, next_spaces(s, Some(a)), "taking")) {
            Some(b) => match variable_here(s, b) {
                Some((c, first)) => {
                    let (e, mut more) = arg_tail_here(s, c);
                    let mut args: Vec<String> = Vec::new();
                    args.push(string_of(&first));
                    args.append(&mut more);
                    assert(args.deep_view() =~= seq![first@] + arg_tail(s@, c as int).1);
                    Some((e, Symbol::Taking { target: string_of(&target), args }))
                },
                None => None,
            },
            None => None,
        },
        None => None,
    }
}

pub fn word_here(s: &Vec<char>, p: usize) -> (r: Option<(usize, Symbol)>)
    requires
        p <= s@.len(),
    ensures
        found(r) == word_at(s@, p as int),
        fits(r, p, s@),
{
    let k = keyword_here(s, p);
    if k.is_some() {
        return k;
    }
    let t = taking_here(s, p);
    if t.is_some() {
        return t;
    }
    let q = scan(s, p, Class::Numeric);
    if q > p {
        return Some((q, Symbol::Integer(text_between(s, p, q))));
    }
    if let Some((q, v)) = variable_here(s, p) {
        return Some((q, Symbol::Variable(string_of(&v))));
    }
    if p < s.len() && s[p] == '"' {
        let q = scan(s, p + 1, Class::StringChar);
        if q < s.len() && s[q] == '"' {
            return Some((q + 1, Symbol::String(text_between(s, p + 1, q))));
        }
    }
    if p < s.len() && s[p] == '(' {
        let q = scan(s, p + 1, Class::NotCloseParen);
        if q < s.len() {
            return Some((q + 1, Symbol::Comment));
        }
    }
    let q = scan(s, p, Class::Letter);
    if q > p {
        let mut w: Vec<String> = Vec::new();
        w.push(text_between(s, p, q));
        assert(w.deep_view() =~= seq![s@.subrange(p as int, q as int)]);
        return Some((q, Symbol::Words(w)));
    }
    None
}


/// The words of a literal after `is`: each a run of letters after separators.
pub open spec fn literal_words(s: Seq<char>, q: int) -> (int, Seq<Seq<char>>)
    decreases s.len() - q,
{
    match then_spaces(s, Some(q)) {
        Some(a) => {
            let b = run_end(s, a, Class::Letter);
            if a < b && q < b <= s.len() {
                let (e, ws) = literal_words(s, b);
                (e, seq![s.subrange(a, b)] + ws)
            } else {
                (q, seq![])
            }
        },
        None => (q, seq![]),
    }
}

/// `<variable> is <word> <word> ...`: the words are kept as one literal.
pub open spec fn poetic_at(s: Seq<char>, p: int) -> Option<(int, Seq<SymbolV>)> {
    match variable_at(s, p) {
        Some((a, v)) => match then_spaces(s, Some(a)) {
            Some(b) => if b + 2 <= s.len() && s[b] == 'i' && s[b + 1] == 's' {
                let (e, ws) = literal_words(s, b + 2);
                if ws.len() > 0 {
                    Some((e, seq![SymbolV::Variable(v), SymbolV::Is, SymbolV::Words(ws)]))
                } else {
                    None
                }
            } else {
                None
            },
            None => None,
        },
        None => None,
    }
}

/// The symbols after the first one on a line: a comma directly, or a symbol
/// after separators.
pub open spec fn line_tail(s: Seq<char>, q: int) -> (int, Seq<SymbolV>)
    decreases s.len() - q,
{
    if 0 <= q < s.len() && s[q] == ',' {
        let (e, t) = line_tail(s, q + 1);
        (e, seq![SymbolV::Comma] + t)
    } else {
        match then_spaces(s, Some(q)) {
            Some(a) => match word_at(s, a) {
                Some((b, sym)) => if q < b <= s.len() {
                    let (e, t) = line_tail(s, b);
                    (e, seq![sym] + t)
                } else {
                    (q, seq![])
                },
                None => (q, seq![]),
            },
            None => (q, seq![]),
        }
    }
}

pub open spec fn plain_line_at(s: Seq<char>, p: int) -> Option<(int, Seq<SymbolV>)> {
    match word_at(s, p) {
        Some((q, sym)) => {
            let (e, t) = line_tail(s, q);
            Some((e, seq![sym] + t))
        },
        None => None,
    }
}

/// The symbols of one line starting at `p`, and where they end.
pub open spec fn line_at(s: Seq<char>, p: int) -> Option<(int, Seq<SymbolV>)> {
    or_else(poetic_at(s, p), plain_line_at(s, p))
}

pub open spec fn listed(r: (usize, Vec<Symbol>)) -> (int, Seq<SymbolV>) {
    (r.0 as int, symbols_view(r.1@))
}

fn literal_words_here(s: &Vec<char>, q: usize) -> (r: (usize, Vec<String>))
    requires
        q <= s@.len(),
    ensures
        r.0 == literal_words(s@, q as int).0,
        r.1.deep_view() == literal_words(s@, q as int).1,
        q <= r.0 <= s@.len(),
    decreases s@.len() - q,
{
    match next_spaces(s, Some(q)) {
        Some(a) => {
            let b = scan(s, a, Class::Letter);
            if a < b && q < b {
                let (e, mut ws) = literal_words_here(s, b);
                let mut out: Vec<String> = Vec::new();
                out.push(text_between(s, a, b));
                out.append(&mut ws);
                assert(out.deep_view() =~= seq![s@.subrange(a as int, b as int)]
                    + literal_words(s@, b as int).1);
                (e, out)
            } else {
                (q, Vec::new())
            }
        },
        None => (q, Vec::new()),
    }
}

fn poetic_here(s: &Vec<char>, p: usize) -> (r: Option<(usize, Vec<Symbol>)>)
    requires
        p <= s@.len(),
    ensures
        r matches Some(x) ==> poetic_at(s@, p as int) == Some(listed(x)) && p <= x.0 <= s@.len(),
        r is None ==> poetic_at(s@, p as int) is None,
{
    match variable_here(s, p) {
        Some((a, v)) => match next_spaces(s, Some(a)) {
            Some(b) => if b < s.len() && s.len() - b >= 2 && s[b] == 'i' && s[b + 1] == 's' {
                let (e, ws) = literal_words_here(s, b + 2);
                if ws.len() > 0 {
                    let mut out: Vec<Symbol> = Vec::new();
                    out.push(Symbol::Variable(string_of(&v)));
                    out.push(Symbol::Is);
                    out.push(Symbol::Words(ws));
                    assert(symbols_view(out@) =~= seq![
                        SymbolV::Variable(v@),
                        SymbolV::Is,
                        SymbolV::Words(literal_words(s@, b + 2).1),
                    ]);
                    Some((e, out))
                } else {
                    None
                }
            } else {
                None
            },
            None => None,
        },
        None => None,
    }
}

fn line_tail_here(s: &Vec<char>, q: usize) -> (r: (usize, Vec<Symbol>))
    requires
        q <= s@.len(),
    ensures
        listed(r) == line_tail(s@, q as int),
        q <= r.0 <= s@.len(),
    decreases s@.len() - q,
{
    if q < s.len() && s[q] == ',' {
        let (e, mut t) = line_tail_here(s, q + 1);
        let mut out: Vec<Symbol> = Vec::new();
        out.push(Symbol::Comma);
        out.append(&mut t);
        assert(symbols_view(out@) =~= seq![SymbolV::Comma] + line_tail(s@, q + 1).1);
        (e, out)
    } else {
        match next_spaces(s, Some(q)) {
            Some(a) => match word_here(s, a) {
                Some((b, sym)) => if q < b {
                    let ghost sv = sym@;
                    let (e, mut t) = line_tail_here(s, b);
                    let mut out: Vec<Symbol> = Vec::new();
                    out.push(sym);
                    out.append(&mut t);
                    assert(symbols_view(out@) =~= seq![sv] + line_tail(s@, b as int).1);
                    (e, out)
                } else {
                    (q, Vec::new())
                },
                None => (q, Vec::new()),
            },
            None => (q, Vec::new()),
        }
    }
}

/// The symbols of the line at `p` and where they end.
pub fn line_here(s: &Vec<char>, p: usize) -> (r: Option<(usize, Vec<Symbol>)>)
    requires
        p <= s@.len(),
    ensures
        r matches Some(x) ==> line_at(s@, p as int) == Some(listed(x)) && p <= x.0 <= s@.len(),
        r is None ==> line_at(s@, p as int) is None,
{
    let poetic = poetic_here(s, p);
    if poetic.is_some() {
        return poetic;
    }
    match word_here(s, p) {
        Some((q, sym)) => {
            let ghost sv = sym@;
            let (e, mut t) = line_tail_here(s, q);
            let mut out: Vec<Symbol> = Vec::new();
            out.push(sym);
            out.append(&mut t);
            assert(symbols_view(out@) =~= seq![sv] + line_tail(s@, q as int).1);
            Some((e, out))
        },
        None => None,
    }
}


/// Separators, a line break, and the separators after it.
pub open spec fn blank_at(s: Seq<char>, p: int) -> Option<int> {
    let a = run_end(s, p, Class::Space);
    if 0 <= a < s.len() && newline_char(s[a]) {
        Some(run_end(s, a + 1, Class::Space))
    } else {
        None
    }
}

/// Where the leading blank lines from `p` end.
pub open spec fn skip_blank_lines(s: Seq<char>, p: int) -> int
    decreases s.len() - p,
{
    match blank_at(s, p) {
        Some(q) => if p < q <= s.len() {
            skip_blank_lines(s, q)
        } else {
            p
        },
        None => p,
    }
}

/// The line after position `q`: a line break followed by a line of symbols,
/// or else a blank line, which reads as a single `Newline`. The result is
/// where it ends, where it starts, and its symbols.
pub open spec fn following_line(s: Seq<char>, q: int) -> Option<(int, int, Seq<SymbolV>)> {
    let a = run_end(s, q, Class::Space);
    let text = if 0 <= a < s.len() && newline_char(s[a]) {
        let b = run_end(s, a + 1, Class::Space);
        match line_at(s, b) {
            Some((c, syms)) => Some((c, b, syms)),
            None => None,
        }
    } else {
        None
    };
    if text is Some {
        text
    } else {
        match blank_at(s, q) {
            Some(c) => Some((c, q, seq![SymbolV::Newline])),
            None => None,
        }
    }
}

/// The lines after `q`: each with where it starts and its symbols.
pub open spec fn more_lines(s: Seq<char>, q: int) -> (int, Seq<(int, Seq<SymbolV>)>)
    decreases s.len() - q,
{
    match following_line(s, q) {
        Some((c, b, syms)) => if q < c <= s.len() {
            let (e, ls) = more_lines(s, c);
            (e, seq![(b, syms)] + ls)
        } else {
            (q, seq![])
        },
        None => (q, seq![]),
    }
}

/// The lines of the whole text, after its leading blank lines, and where
/// reading stopped; `None` when not even one line can be read.
pub open spec fn source_lines(s: Seq<char>) -> Option<(int, Seq<(int, Seq<SymbolV>)>)> {
    let p = skip_blank_lines(s, 0);
    match line_at(s, p) {
        Some((q, syms)) => {
            let (e, ls) = more_lines(s, q);
            Some((e, seq![(p, syms)] + ls))
        },
        None => None,
    }
}

/// Number of `\n` characters before position `p`.
pub open spec fn breaks_before(s: Seq<char>, p: int) -> nat
    decreases p,
{
    if p <= 0 {
        0
    } else {
        breaks_before(s, p - 1) + if s[p - 1] == '\n' {
            1nat
        } else {
            0nat
        }
    }
}

/// The 1-based line number of position `p` (it stops at the largest `usize`).
pub open spec fn line_of(s: Seq<char>, p: int) -> usize {
    let n = breaks_before(s, p);
    if n < usize::MAX {
        (n + 1) as usize
    } else {
        usize::MAX
    }
}

pub open spec fn with_line(line: usize, syms: Seq<SymbolV>) -> Seq<TokenV> {
    syms.map_values(|x: SymbolV| TokenV { line, symbol: x })
}

pub open spec fn tokens_of(s: Seq<char>, ls: Seq<(int, Seq<SymbolV>)>) -> Seq<Seq<TokenV>> {
    ls.map_values(|l: (int, Seq<SymbolV>)| with_line(line_of(s, l.0), l.1))
}

/// Counts on from `n` line breaks before `from` to those before `to`.
fn count_breaks(s: &Vec<char>, from: usize, n: usize, to: usize) -> (r: usize)
    requires
        from <= to <= s@.len(),
        n == breaks_before(s@, from as int),
        n <= from,
    ensures
        r == breaks_before(s@, to as int),
        r <= to,
{
    let mut i = from;
    let mut c = n;
    while i < to
        invariant
            from <= i <= to <= s@.len(),
            c == breaks_before(s@, i as int),
            c <= i,
        decreases to - i,
    {
        if s[i] == '\n' {
            c = c + 1;
        }
        i = i + 1;
    }
    c
}

fn line_number(n: usize) -> (r: usize)
    ensures
        r == (if n < usize::MAX {
            (n + 1) as usize
        } else {
            usize::MAX
        }),
{
    if n < usize::MAX {
        n + 1
    } else {
        usize::MAX
    }
}

fn tag_line(line: usize, syms: Vec<Symbol>) -> (r: Vec<Token>)
    ensures
        tokens_view(r@) == with_line(line, symbols_view(syms@)),
{
    let mut out: Vec<Token> = Vec::new();
    let mut i: usize = 0;
    let mut syms = syms;
    let ghost whole = symbols_view(syms@);
    let n = syms.len();
    while syms.len() > 0
        invariant
            n == whole.len(),
            i + syms@.len() == whole.len(),
            tokens_view(out@) == with_line(line, whole.subrange(0, i as int)),
            forall|j: int| 0 <= j < syms@.len() ==> (#[trigger] syms@[j])@ == whole[i + j],
        decreases syms@.len(),
    {
        let sym = syms.remove(0);
        assert(sym@ == whole[i as int]);
        let ghost prev = out@;
        let ghost t = TokenV { line, symbol: whole[i as int] };
        out.push(Token { line, symbol: sym });
        assert(tokens_view(out@) =~= tokens_view(prev).push(t));
        assert(with_line(line, whole.subrange(0, i + 1)) =~= with_line(
            line,
            whole.subrange(0, i as int),
        ).push(t));
        i = i + 1;
    }
    assert(whole.subrange(0, i as int) =~= whole);
    out
}

fn blank_here(s: &Vec<char>, p: usize) -> (r: Option<usize>)
    requires
        p <= s@.len(),
    ensures
        as_int(r) == blank_at(s@, p as int),
        r matches Some(q) ==> p < q <= s@.len(),
{
    let a = scan(s, p, Class::Space);
    if a < s.len() && (s[a] == '\r' || s[a] == '\n') {
        Some(scan(s, a + 1, Class::Space))
    } else {
        None
    }
}

fn following_line_here(s: &Vec<char>, q: usize) -> (r: Option<(usize, usize, Vec<Symbol>)>)
    requires
        q <= s@.len(),
    ensures
        r matches Some((c, b, v)) ==> following_line(s@, q as int) == Some(
            (c as int, b as int, symbols_view(v@)),
        ) && q <= b <= c <= s@.len(),
        r is None ==> following_line(s@, q as int) is None,
{
    let a = scan(s, q, Class::Space);
    if a < s.len() && (s[a] == '\r' || s[a] == '\n') {
        let b = scan(s, a + 1, Class::Space);
        if let Some((c, syms)) = line_here(s, b) {
            return Some((c, b, syms));
        }
    }
    match blank_here(s, q) {
        Some(c) => {
            let mut v: Vec<Symbol> = Vec::new();
            v.push(Symbol::Newline);
            assert(symbols_view(v@) =~= seq![SymbolV::Newline]);
            Some((c, q, v))
        },
        None => None,
    }
}

/// Where the leading blank lines of `s` end.
pub fn skip_blank_lines_here(s: &Vec<char>) -> (r: usize)
    ensures
        r == skip_blank_lines(s@, 0),
        r <= s@.len(),
{
    let mut p: usize = 0;
    loop
        invariant
            p <= s@.len(),
            skip_blank_lines(s@, p as int) == skip_blank_lines(s@, 0),
        ensures
            p <= s@.len(),
            p == skip_blank_lines(s@, 0),
        decreases s@.len() - p,
    {
        match blank_here(s, p) {
            Some(q) => {
                p = q;
            },
            None => {
                break;
            },
        }
    }
    p
}

/// The line number of position `p`.
pub fn line_of_position(s: &Vec<char>, p: usize) -> (r: usize)
    requires
        p <= s@.len(),
    ensures
        r == line_of(s@, p as int),
{
    line_number(count_breaks(s, 0, 0, p))
}

/// The lines of `s` as tokens, and where reading stopped.
pub fn split_lines(s: &Vec<char>) -> (r: Option<(usize, Vec<Vec<Token>>)>)
    ensures
        match source_lines(s@) {
            None => r is None,
            Some((e, ls)) => r matches Some((re, v)) && re == e && lines_view(v@) == tokens_of(
                s@,
                ls,
            ) && re <= s@.len(),
        },
{
    let p = skip_blank_lines_here(s);
    let (q, syms) = match line_here(s, p) {
        Some(x) => x,
        None => {
            return None;
        },
    };
    let ghost first = (p as int, symbols_view(syms@));
    let mut counted = count_breaks(s, 0, 0, p);
    let mut at = p;
    let mut out: Vec<Vec<Token>> = Vec::new();
    out.push(tag_line(line_number(counted), syms));
    let ghost all = seq![first] + more_lines(s@, q as int).1;
    assert(lines_view(out@) =~= tokens_of(s@, seq![first]));
    let mut cur = q;
    loop
        invariant
            at <= cur <= s@.len(),
            counted == breaks_before(s@, at as int),
            counted <= at,
            more_lines(s@, cur as int).0 == more_lines(s@, q as int).0,
            tokens_of(s@, all) == lines_view(out@) + tokens_of(s@, more_lines(s@, cur as int).1),
            all == seq![first] + more_lines(s@, q as int).1,
            source_lines(s@) == Some((more_lines(s@, q as int).0, all)),
        ensures
            cur <= s@.len(),
            more_lines(s@, cur as int).0 == more_lines(s@, q as int).0,
            more_lines(s@, cur as int).1.len() == 0,
            tokens_of(s@, all) == lines_view(out@) + tokens_of(s@, more_lines(s@, cur as int).1),
            source_lines(s@) == Some((more_lines(s@, q as int).0, all)),
        decreases s@.len() - cur,
    {
        match following_line_here(s, cur) {
            Some((c, b, syms)) => {
                if cur < c {
                    let ghost entry = (b as int, symbols_view(syms@));
                    let ghost rest = more_lines(s@, c as int).1;
                    counted = count_breaks(s, at, counted, b);
                    at = b;
                    let ghost before = lines_view(out@);
                    out.push(tag_line(line_number(counted), syms));
                    assert(tokens_of(s@, seq![entry] + rest) =~= tokens_of(s@, seq![entry])
                        + tokens_of(s@, rest));
                    assert(lines_view(out@) =~= before + tokens_of(s@, seq![entry]));
                    cur = c;
                } else {
                    break;
                }
            },
            None => {
                break;
            },
        }
    }
    assert(tokens_of(s@, more_lines(s@, cur as int).1) =~= seq![]);
    assert(lines_view(out@) =~= tokens_of(s@, all));
    Some((cur, out))
}


/// What was left unread, and the line where it starts.
#[derive(Debug, PartialEq)]
pub struct Remainder {
    pub text: String,
    pub line: usize,
}

/// Reads one line of symbols at the start of `text`; returns the text left
/// after it and its tokens (all on line 1).
pub fn line_tokens(text: &str) -> (r: Option<(String, Vec<Token>)>)
    ensures
        match line_at(text@, 0) {
            Some((q, syms)) => r matches Some((rest, toks)) && rest@ == text@.subrange(
                q,
                text@.len() as int,
            ) && tokens_view(toks@) == with_line(1, syms),
            None => r is None,
        },
{
    let s = chars_of(text);
    match line_here(&s, 0) {
        Some((q, syms)) => {
            let n = line_of_position(&s, 0);
            Some((text_between(&s, q, s.len()), tag_line(n, syms)))
        },
        None => None,
    }
}

/// Reads the whole text as lines of tokens; returns what was left unread and
/// the lines, or `None` when not even one line can be read.
pub fn lines(text: &str) -> (r: Option<(Remainder, Vec<Vec<Token>>)>)
    ensures
        match source_lines(text@) {
            Some((e, ls)) => r matches Some((rest, v)) && rest.text@ == text@.subrange(
                e,
                text@.len() as int,
            ) && rest.line == line_of(text@, e) && lines_view(v@) == tokens_of(text@, ls),
            None => r is None,
        },
{
    let s = chars_of(text);
    match split_lines(&s) {
        Some((e, v)) => {
            let rest = Remainder { text: text_between(&s, e, s.len()), line: line_of_position(&s, e) };
            Some((rest, v))
        },
        None => None,
    }
}

} // verus!
