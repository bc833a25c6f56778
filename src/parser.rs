//! The whole front end: contractions rewritten, the text read as lines of
//! tokens, and the lines assembled into a program.

use vstd::prelude::*;
use crate::assembler::{assemble, assemble_lines, finish};
use crate::lexer::{
    line_of, line_of_position, skip_blank_lines, skip_blank_lines_here, source_lines,
    split_lines, text_between, tokens_of,
};
use crate::laws::unresolved;
use crate::program::{ErrorV, ParseError, Program, ProgramV};
use crate::text::{chars_of, is_white, white_char};

verus! {

/// The text with each `'s` that is followed by white space, together with
/// that white space, replaced by ` is `.
pub uninterp spec fn possessives_expanded(s: Seq<char>) -> Seq<char>;

/// Relies on `regex::Regex::replace_all` with the pattern `'s\s+`: each
/// match is replaced by ` is `; the result depends on the text alone, and a
/// text with no apostrophe has no match and comes back unchanged.
#[verifier::external_body]
fn expand_possessives(s: &str) -> (r: String)
    ensures
        r@ == possessives_expanded(s@),
        !s@.contains('\'') ==> r@ == s@,
{
    regex::Regex::new(r"'s\s+").unwrap().replace_all(s, " is ").into_owned()
}

/// The text with every apostrophe removed.
pub open spec fn without_apostrophes(s: Seq<char>) -> Seq<char>
    decreases s.len(),
{
    if s.len() == 0 {
        seq![]
    } else {
        without_apostrophes(s.drop_last()) + if s.last() == '\'' {
            seq![]
        } else {
            seq![s.last()]
        }
    }
}

/// A text with no apostrophe is kept as it is.
pub proof fn lemma_no_apostrophes(s: Seq<char>)
    requires
        !s.contains('\''),
    ensures
        without_apostrophes(s) == s,
    decreases s.len(),
{
    if s.len() > 0 {
        let d = s.drop_last();
        assert(!d.contains('\'')) by {
            if d.contains('\'') {
                let i = choose|i: int| 0 <= i < d.len() && d[i] == '\'';
                assert(s[i] == '\'');
            }
        }
        lemma_no_apostrophes(d);
        assert(s[s.len() - 1] != '\'');
        assert(d + seq![s.last()] =~= s);
    }
}

/// Some character at or after `e` is not white space.
pub open spec fn has_content(s: Seq<char>, e: int) -> bool {
    exists|i: int| e <= i < s.len() && !white_char(#[trigger] s[i])
}

/// The program that a text (its contractions already rewritten) stands for.
pub open spec fn program_of(s: Seq<char>) -> Result<ProgramV, ErrorV> {
    match source_lines(s) {
        None => {
            let p = skip_blank_lines(s, 0);
            Err(ErrorV::UnparsedText(s.subrange(p, s.len() as int), line_of(s, p)))
        },
        Some((e, ls)) => if has_content(s, e) {
            Err(ErrorV::UnparsedText(s.subrange(e, s.len() as int), line_of(s, e)))
        } else {
            match assemble(tokens_of(s, ls)) {
                Ok(st) => finish(st),
                Err(x) => Err(x),
            }
        },
    }
}

pub open spec fn parsed(r: Result<Program, ParseError>) -> Result<ProgramV, ErrorV> {
    match r {
        Ok(p) => Ok(p@),
        Err(e) => Err(e@),
    }
}

fn drop_apostrophes(s: &Vec<char>) -> (r: Vec<char>)
    ensures
        r@ == without_apostrophes(s@),
{
    let mut out: Vec<char> = Vec::new();
    let mut i: usize = 0;
    while i < s.len()
        invariant
            i <= s@.len(),
            out@ == without_apostrophes(s@.subrange(0, i as int)),
        decreases s@.len() - i,
    {
        let ghost before = out@;
        if s[i] != '\'' {
            out.push(s[i]);
        }
        assert(s@.subrange(0, i + 1).drop_last() =~= s@.subrange(0, i as int));
        assert(out@ =~= without_apostrophes(s@.subrange(0, i + 1)));
        i = i + 1;
    }
    assert(s@.subrange(0, i as int) =~= s@);
    out
}

/// Whether some character of `s` at or after `e` is not white space.
fn content_after(s: &Vec<char>, e: usize) -> (r: bool)
    requires
        e <= s@.len(),
    ensures
        r == has_content(s@, e as int),
{
    let mut i = e;
    while i < s.len()
        invariant
            e <= i <= s@.len(),
            forall|j: int| e <= j < i ==> white_char(#[trigger] s@[j]),
        decreases s@.len() - i,
    {
        if !is_white(s[i]) {
            return true;
        }
        i = i + 1;
    }
    false
}

/// Parses a text whose contractions are already rewritten: apostrophes
/// are dropped, then the text is read and assembled.
pub fn parse_expanded(text: &str) -> (r: Result<Program, ParseError>)
    ensures
        parsed(r) == program_of(without_apostrophes(text@)),
        r matches Ok(p) ==> forall|i: int|
            0 <= i < p@.commands.len() ==> !unresolved(#[trigger] p@.commands[i].cmd),
{
    let raw = chars_of(text);
    let s = drop_apostrophes(&raw);
    match split_lines(&s) {
        None => {
            let p = skip_blank_lines_here(&s);
            Err(ParseError::UnparsedText(text_between(&s, p, s.len()), line_of_position(&s, p)))
        },
        Some((e, lines)) => {
            if content_after(&s, e) {
                Err(ParseError::UnparsedText(text_between(&s, e, s.len()), line_of_position(&s, e)))
            } else {
                assemble_lines(lines)
            }
        },
    }
}

/// Parses a program text: `'s` before a separator reads as `is`, other
/// apostrophes are dropped, then the text is read and assembled.
pub fn parse(input: &str) -> (r: Result<Program, ParseError>)
    ensures
        parsed(r) == program_of(without_apostrophes(possessives_expanded(input@))),
        !input@.contains('\'') ==> parsed(r) == program_of(input@),
        r matches Ok(p) ==> forall|i: int|
            0 <= i < p@.commands.len() ==> !unresolved(#[trigger] p@.commands[i].cmd),
{
    let fixed = expand_possessives(input);
    proof {
        if !input@.contains('\'') {
            lemma_no_apostrophes(input@);
        }
    }
    parse_expanded(fixed.as_str())
}

} // verus!
