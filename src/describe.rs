//! A readable rendering of symbols, used in error messages. It follows
//! Rust's debug notation: `[Words(["t"]), Is]`. Inside quotes it escapes
//! backslash, double quote, tab, line breaks and NUL as Rust does; unlike
//! Rust it writes other control and non-printable characters as they are,
//! not as `\u{..}`.

use vstd::prelude::*;
use crate::symbols::{symbols_view, Symbol, SymbolV};
use crate::text::chars_of;

verus! {

pub open spec fn escape_char(c: char) -> Seq<char> {
    if c == '\\' {
        seq!['\\', '\\']
    } else if c == '"' {
        seq!['\\', '"']
    } else if c == '\t' {
        seq!['\\', 't']
    } else if c == '\n' {
        seq!['\\', 'n']
    } else if c == '\r' {
        seq!['\\', 'r']
    } else if c == '\0' {
        seq!['\\', '0']
    } else {
        seq![c]
    }
}

pub open spec fn escaped(t: Seq<char>) -> Seq<char>
    decreases t.len(),
{
    if t.len() == 0 {
        seq![]
    } else {
        escaped(t.drop_last()) + escape_char(t.last())
    }
}

/// Text in double quotes, with backslash, quote, tab and line breaks escaped.
pub open spec fn quoted(t: Seq<char>) -> Seq<char> {
    seq!['"'] + escaped(t) + seq!['"']
}

/// Quoted texts separated by `", "`.
pub open spec fn quoted_list(ws: Seq<Seq<char>>) -> Seq<char>
    decreases ws.len(),
{
    if ws.len() == 0 {
        seq![]
    } else if ws.len() == 1 {
        quoted(ws[0])
    } else {
        quoted_list(ws.drop_last()) + ", "@ + quoted(ws.last())
    }
}

pub open spec fn symbol_text(s: SymbolV) -> Seq<char> {
    match s {
        SymbolV::Is => "Is"@,
        SymbolV::Aint => "Aint"@,
        SymbolV::GreaterThan => "GreaterThan"@,
        SymbolV::GreaterThanOrEqual => "GreaterThanOrEqual"@,
        SymbolV::LessThan => "LessThan"@,
        SymbolV::Add => "Add"@,
        SymbolV::Subtract => "Subtract"@,
        SymbolV::Times => "Times"@,
        SymbolV::And => "And"@,
        SymbolV::If => "If"@,
        SymbolV::Else => "Else"@,
        SymbolV::While => "While"@,
        SymbolV::Until => "Until"@,
        SymbolV::Next => "Next"@,
        SymbolV::Continue => "Continue"@,
        SymbolV::Return => "Return"@,
        SymbolV::Build => "Build"@,
        SymbolV::Up => "Up"@,
        SymbolV::Knock => "Knock"@,
        SymbolV::Down => "Down"@,
        SymbolV::Takes => "Takes"@,
        SymbolV::Put => "Put"@,
        SymbolV::Where => "Where"@,
        SymbolV::Say => "Say"@,
        SymbolV::Comma => "Comma"@,
        SymbolV::Comment => "Comment"@,
        SymbolV::Newline => "Newline"@,
        SymbolV::Variable(v) => "Variable("@ + quoted(v) + ")"@,
        SymbolV::Integer(v) => "Integer("@ + quoted(v) + ")"@,
        SymbolV::Str(v) => "String("@ + quoted(v) + ")"@,
        SymbolV::Words(ws) => "Words(["@ + quoted_list(ws) + "])"@,
        SymbolV::Taking(t, args) => "Taking { target: "@ + quoted(t) + ", args: ["@ + quoted_list(
            args,
        ) + "] }"@,
    }
}

pub open spec fn symbol_list(ss: Seq<SymbolV>) -> Seq<char>
    decreases ss.len(),
{
    if ss.len() == 0 {
        seq![]
    } else if ss.len() == 1 {
        symbol_text(ss[0])
    } else {
        symbol_list(ss.drop_last()) + ", "@ + symbol_text(ss.last())
    }
}

/// A list of symbols in brackets.
pub open spec fn symbols_text(ss: Seq<SymbolV>) -> Seq<char> {
    seq!['['] + symbol_list(ss) + seq![']']
}

pub fn push_text(out: &mut Vec<char>, t: &str)
    ensures
        final(out)@ == old(out)@ + t@,
{
    let n = t.unicode_len();
    let mut i: usize = 0;
    while i < n
        invariant
            n == t@.len(),
            i <= n,
            out@ == old(out)@ + t@.subrange(0, i as int),
        decreases n - i,
    {
        out.push(t.get_char(i));
        i = i + 1;
        assert(out@ =~= old(out)@ + t@.subrange(0, i as int));
    }
    assert(t@.subrange(0, i as int) =~= t@);
}

fn push_escaped(out: &mut Vec<char>, t: &Vec<char>)
    ensures
        final(out)@ == old(out)@ + escaped(t@),
{
    let mut i: usize = 0;
    while i < t.len()
        invariant
            i <= t@.len(),
            out@ == old(out)@ + escaped(t@.subrange(0, i as int)),
        decreases t@.len() - i,
    {
        let c = t[i];
        let ghost before = out@;
        if c == '\\' {
            out.push('\\');
            out.push('\\');
        } else if c == '"' {
            out.push('\\');
            out.push('"');
        } else if c == '\t' {
            out.push('\\');
            out.push('t');
        } else if c == '\n' {
            out.push('\\');
            out.push('n');
        } else if c == '\r' {
            out.push('\\');
            out.push('r');
        } else if c == '\0' {
            out.push('\\');
            out.push('0');
        } else {
            out.push(c);
        }
        assert(out@ =~= before + escape_char(c));
        assert(t@.subrange(0, i + 1).drop_last() =~= t@.subrange(0, i as int));
        i = i + 1;
    }
    assert(t@.subrange(0, i as int) =~= t@);
}

fn push_quoted(out: &mut Vec<char>, s: &String)
    ensures
        final(out)@ == old(out)@ + quoted(s@),
{
    let t = chars_of(s.as_str());
    out.push('"');
    push_escaped(out, &t);
    out.push('"');
    assert(out@ =~= old(out)@ + quoted(s@));
}

fn push_quoted_list(out: &mut Vec<char>, ws: &Vec<String>)
    ensures
        final(out)@ == old(out)@ + quoted_list(ws.deep_view()),
{
    let ghost all = ws.deep_view();
    let mut i: usize = 0;
    while i < ws.len()
        invariant
            i <= ws@.len(),
            all == ws.deep_view(),
            out@ == old(out)@ + quoted_list(all.subrange(0, i as int)),
        decreases ws@.len() - i,
    {
        let ghost before = out@;
        if i > 0 {
            push_text(out, ", ");
        }
        push_quoted(out, &ws[i]);
        assert(all.subrange(0, i + 1).drop_last() =~= all.subrange(0, i as int));
        assert(out@ =~= old(out)@ + quoted_list(all.subrange(0, i + 1)));
        i = i + 1;
    }
    assert(all.subrange(0, i as int) =~= all);
}

fn push_symbol(out: &mut Vec<char>, s: &Symbol)
    ensures
        final(out)@ == old(out)@ + symbol_text(s@),
{
    let ghost start = out@;
    match s {
        Symbol::Is => push_text(out, "Is"),
        Symbol::Aint => push_text(out, "Aint"),
        Symbol::GreaterThan => push_text(out, "GreaterThan"),
        Symbol::GreaterThanOrEqual => push_text(out, "GreaterThanOrEqual"),
        Symbol::LessThan => push_text(out, "LessThan"),
        Symbol::Add => push_text(out, "Add"),
        Symbol::Subtract => push_text(out, "Subtract"),
        Symbol::Times => push_text(out, "Times"),
        Symbol::And => push_text(out, "And"),
        Symbol::If => push_text(out, "If"),
        Symbol::Else => push_text(out, "Else"),
        Symbol::While => push_text(out, "While"),
        Symbol::Until => push_text(out, "Until"),
        Symbol::Next => push_text(out, "Next"),
        Symbol::Continue => push_text(out, "Continue"),
        Symbol::Return => push_text(out, "Return"),
        Symbol::Build => push_text(out, "Build"),
        Symbol::Up => push_text(out, "Up"),
        Symbol::Knock => push_text(out, "Knock"),
        Symbol::Down => push_text(out, "Down"),
        Symbol::Takes => push_text(out, "Takes"),
        Symbol::Put => push_text(out, "Put"),
        Symbol::Where => push_text(out, "Where"),
        Symbol::Say => push_text(out, "Say"),
        Symbol::Comma => push_text(out, "Comma"),
        Symbol::Comment => push_text(out, "Comment"),
        Symbol::Newline => push_text(out, "Newline"),
        Symbol::Variable(v) => {
            push_text(out, "Variable(");
            push_quoted(out, v);
            push_text(out, ")");
        },
        Symbol::Integer(v) => {
            push_text(out, "Integer(");
            push_quoted(out, v);
            push_text(out, ")");
        },
        Symbol::String(v) => {
            push_text(out, "String(");
            push_quoted(out, v);
            push_text(out, ")");
        },
        Symbol::Words(ws) => {
            push_text(out, "Words([");
            push_quoted_list(out, ws);
            push_text(out, "])");
        },
        Symbol::Taking { target, args } => {
            push_text(out, "Taking { target: ");
            push_quoted(out, target);
            push_text(out, ", args: [");
            push_quoted_list(out, args);
            push_text(out, "] }");
        },
    }
    assert(out@ =~= start + symbol_text(s@));
}

/// Renders one symbol.
pub fn describe_symbol(s: &Symbol) -> (r: Vec<char>)
    ensures
        r@ == symbol_text(s@),
{
    let mut out: Vec<char> = Vec::new();
    push_symbol(&mut out, s);
    assert(out@ =~= symbol_text(s@));
    out
}

/// Renders the symbols `ss[lo..hi]` as a list in brackets.
pub fn describe_symbols(ss: &Vec<Symbol>, lo: usize, hi: usize) -> (r: Vec<char>)
    requires
        lo <= hi <= ss@.len(),
    ensures
        r@ == symbols_text(symbols_view(ss@).subrange(lo as int, hi as int)),
{
    let ghost all = symbols_view(ss@).subrange(lo as int, hi as int);
    let mut out: Vec<char> = Vec::new();
    out.push('[');
    let mut i: usize = lo;
    while i < hi
        invariant
            lo <= i <= hi <= ss@.len(),
            all == symbols_view(ss@).subrange(lo as int, hi as int),
            out@ == seq!['['] + symbol_list(all.subrange(0, i - lo)),
        decreases hi - i,
    {
        if i > lo {
            push_text(&mut out, ", ");
        }
        push_symbol(&mut out, &ss[i]);
        assert(all[i - lo] == ss@[i as int]@);
        assert(all.subrange(0, i + 1 - lo).drop_last() =~= all.subrange(0, i - lo));
        assert(out@ =~= seq!['['] + symbol_list(all.subrange(0, i + 1 - lo)));
        i = i + 1;
    }
    out.push(']');
    assert(all.subrange(0, i - lo) =~= all);
    assert(out@ =~= symbols_text(all));
    out
}

} // verus!
