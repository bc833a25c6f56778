//! Properties that hold of every input, proved over the models.

use vstd::prelude::*;
use crate::assembler::{
    declare, find_function,
    assemble, close, close_block, close_loop, compact_from, compacted, emit, statement, step,
    well_formed, Asm,
};
use crate::lexer::{source_lines, tokens_of};
use crate::parser::program_of;
use crate::numbers::{decimal, lemma_decimal_positional, poetic_digits, positional};
use crate::program::{CommandV, ExprV};
use crate::symbols::{SymbolV, TokenV};
use crate::expression::{climb, expression_of, next_operator, operand, precedence, tighter};

verus! {

/// A block-opening command whose jump target is not set yet.
pub open spec fn unresolved(c: CommandV) -> bool {
    match c {
        CommandV::If(_, None) => true,
        CommandV::While(_, None) => true,
        CommandV::Until(_, None) => true,
        CommandV::FunctionDeclaration(_, _, None) => true,
        _ => false,
    }
}

/// No if, loop or function is left open.
pub open spec fn all_closed(st: Asm) -> bool {
    st.loops.len() == 0 && st.funcs.len() == 0 && st.ifs.len() == 0
}

/// Every command whose target is unset is still open on one of the stacks.
pub open spec fn open_tracked(st: Asm) -> bool {
    forall|i: int|
        0 <= i < st.commands.len() && unresolved(#[trigger] st.commands[i].cmd) ==> (
        st.loops.contains(i as usize) || st.funcs.contains(i as usize) || st.ifs.contains(
            i as usize,
        ))
}

pub open spec fn sound(st: Asm) -> bool {
    well_formed(st) && open_tracked(st)
}

proof fn lemma_emit(st: Asm)
    requires
        well_formed(st),
        open_tracked(st),
    ensures
        forall|cmd: CommandV, line: usize|
            !unresolved(cmd) ==> #[trigger] open_tracked(emit(st, cmd, line)) && well_formed(
                emit(st, cmd, line),
            ),
{
    assert forall|cmd: CommandV, line: usize| !unresolved(cmd) implies #[trigger] open_tracked(
        emit(st, cmd, line),
    ) && well_formed(emit(st, cmd, line)) by {
        let s2 = emit(st, cmd, line);
        assert forall|i: int|
            0 <= i < s2.commands.len() && unresolved(#[trigger] s2.commands[i].cmd) implies (
            s2.loops.contains(i as usize) || s2.funcs.contains(i as usize) || s2.ifs.contains(
                i as usize,
            )) by {
            assert(i < st.commands.len());
            assert(s2.commands[i] == st.commands[i]);
        }
    }
}


proof fn lemma_open(st: Asm)
    requires
        sound(st),
        st.commands.len() < usize::MAX,
    ensures
        forall|cmd: CommandV, line: usize|
            sound(
                #[trigger] emit(
                    Asm { loops: st.loops.push(st.commands.len() as usize), ..st },
                    cmd,
                    line,
                ),
            ),
        forall|cmd: CommandV, line: usize|
            sound(
                #[trigger] emit(Asm { ifs: st.ifs.push(st.commands.len() as usize), ..st }, cmd, line),
            ),
{
    let n = st.commands.len() as usize;
    assert forall|cmd: CommandV, line: usize|
        sound(#[trigger] emit(Asm { loops: st.loops.push(n), ..st }, cmd, line)) by {
        let s2 = emit(Asm { loops: st.loops.push(n), ..st }, cmd, line);
        assert forall|i: int|
            0 <= i < s2.commands.len() && unresolved(#[trigger] s2.commands[i].cmd) implies (
            s2.loops.contains(i as usize) || s2.funcs.contains(i as usize) || s2.ifs.contains(
                i as usize,
            )) by {
            if i == n {
                assert(s2.loops[s2.loops.len() - 1] == n);
            } else {
                assert(s2.commands[i] == st.commands[i]);
                if st.loops.contains(i as usize) {
                    let j = choose|j: int| 0 <= j < st.loops.len() && st.loops[j] == i as usize;
                    assert(s2.loops[j] == i as usize);
                }
            }
        }
        assert forall|i: int| 0 <= i < s2.loops.len() implies #[trigger] s2.loops[i]
            < s2.commands.len() by {
            if i < st.loops.len() {
                assert(s2.loops[i] == st.loops[i]);
            }
        }
    }
    assert forall|cmd: CommandV, line: usize|
        sound(#[trigger] emit(Asm { ifs: st.ifs.push(n), ..st }, cmd, line)) by {
        let s2 = emit(Asm { ifs: st.ifs.push(n), ..st }, cmd, line);
        assert forall|i: int|
            0 <= i < s2.commands.len() && unresolved(#[trigger] s2.commands[i].cmd) implies (
            s2.loops.contains(i as usize) || s2.funcs.contains(i as usize) || s2.ifs.contains(
                i as usize,
            )) by {
            if i == n {
                assert(s2.ifs[s2.ifs.len() - 1] == n);
            } else {
                assert(s2.commands[i] == st.commands[i]);
                if st.ifs.contains(i as usize) {
                    let j = choose|j: int| 0 <= j < st.ifs.len() && st.ifs[j] == i as usize;
                    assert(s2.ifs[j] == i as usize);
                }
            }
        }
        assert forall|i: int| 0 <= i < s2.ifs.len() implies #[trigger] s2.ifs[i]
            < s2.commands.len() by {
            if i < st.ifs.len() {
                assert(s2.ifs[i] == st.ifs[i]);
            }
        }
    }
}


proof fn lemma_open_function(st: Asm)
    requires
        sound(st),
        st.commands.len() < usize::MAX,
    ensures
        forall|fs: Seq<(Seq<char>, crate::program::FunctionV)>, cmd: CommandV, line: usize|
            sound(
                #[trigger] emit(
                    Asm { funcs: st.funcs.push(st.commands.len() as usize), functions: fs, ..st },
                    cmd,
                    line,
                ),
            ),
{
    let n = st.commands.len() as usize;
    assert forall|fs: Seq<(Seq<char>, crate::program::FunctionV)>, cmd: CommandV, line: usize|
        sound(#[trigger] emit(Asm { funcs: st.funcs.push(n), functions: fs, ..st }, cmd, line)) by {
        let s2 = emit(Asm { funcs: st.funcs.push(n), functions: fs, ..st }, cmd, line);
        assert forall|i: int|
            0 <= i < s2.commands.len() && unresolved(#[trigger] s2.commands[i].cmd) implies (
            s2.loops.contains(i as usize) || s2.funcs.contains(i as usize) || s2.ifs.contains(
                i as usize,
            )) by {
            if i == n {
                assert(s2.funcs[s2.funcs.len() - 1] == n);
            } else {
                assert(s2.commands[i] == st.commands[i]);
                if st.funcs.contains(i as usize) {
                    let j = choose|j: int| 0 <= j < st.funcs.len() && st.funcs[j] == i as usize;
                    assert(s2.funcs[j] == i as usize);
                }
            }
        }
        assert forall|i: int| 0 <= i < s2.funcs.len() implies #[trigger] s2.funcs[i]
            < s2.commands.len() by {
            if i < st.funcs.len() {
                assert(s2.funcs[i] == st.funcs[i]);
            }
        }
    }
}

/// Closing the block at `k`, popped from one of the stacks of `st`, keeps
/// the state sound.
proof fn lemma_close(st: Asm, st1: Asm, k: usize, cmd: CommandV, line: usize)
    requires
        sound(st),
        !unresolved(cmd),
        k < st.commands.len(),
        st.commands.len() < usize::MAX,
        st1.commands == st.commands,
        (st1.loops == st.loops && st1.funcs == st.funcs && st.ifs.len() > 0 && st1.ifs
            == st.ifs.drop_last() && st.ifs.last() == k) || (st1.loops == st.loops && st1.ifs
            == st.ifs && st.funcs.len() > 0 && st1.funcs == st.funcs.drop_last() && st.funcs.last()
            == k) || (st1.funcs == st.funcs && st1.ifs == st.ifs && st.loops.len() > 0
            && st1.loops == st.loops.drop_last() && st.loops.last() == k),
    ensures
        sound(close(st1, k, cmd, line)),
{
    let s2 = close(st1, k, cmd, line);
    let n = st.commands.len();
    assert forall|i: int|
        0 <= i < s2.commands.len() && unresolved(#[trigger] s2.commands[i].cmd) implies (
        s2.loops.contains(i as usize) || s2.funcs.contains(i as usize) || s2.ifs.contains(
            i as usize,
        )) by {
        if i < n && i != k {
            assert(s2.commands[i] == st.commands[i]);
            if st.loops.contains(i as usize) {
                let j = choose|j: int| 0 <= j < st.loops.len() && st.loops[j] == i as usize;
                if st1.loops != st.loops {
                    assert(j != st.loops.len() - 1);
                }
                assert(s2.loops[j] == i as usize);
            } else if st.funcs.contains(i as usize) {
                let j = choose|j: int| 0 <= j < st.funcs.len() && st.funcs[j] == i as usize;
                if st1.funcs != st.funcs {
                    assert(j != st.funcs.len() - 1);
                }
                assert(s2.funcs[j] == i as usize);
            } else {
                let j = choose|j: int| 0 <= j < st.ifs.len() && st.ifs[j] == i as usize;
                if st1.ifs != st.ifs {
                    assert(j != st.ifs.len() - 1);
                }
                assert(s2.ifs[j] == i as usize);
            }
        }
    }
    assert forall|i: int| 0 <= i < s2.loops.len() implies #[trigger] s2.loops[i] < s2.commands.len() by {
        assert(s2.loops[i] == st.loops[i]);
    }
    assert forall|i: int| 0 <= i < s2.funcs.len() implies #[trigger] s2.funcs[i] < s2.commands.len() by {
        assert(s2.funcs[i] == st.funcs[i]);
    }
    assert forall|i: int| 0 <= i < s2.ifs.len() implies #[trigger] s2.ifs[i] < s2.commands.len() by {
        assert(s2.ifs[i] == st.ifs[i]);
    }
}

proof fn lemma_close_loop(st: Asm, line: usize)
    requires
        sound(st),
        st.loops.len() > 0,
        st.commands.len() < usize::MAX,
    ensures
        sound(close_loop(st, line)),
{
    let k = st.loops.last();
    assert(st.loops[st.loops.len() - 1] < st.commands.len());
    lemma_close(st, Asm { loops: st.loops.drop_last(), ..st }, k, CommandV::Next(k), line);
}

proof fn lemma_close_block(st: Asm, line: usize)
    requires
        sound(st),
        st.commands.len() < usize::MAX,
    ensures
        sound(close_block(st, line)),
{
    if st.ifs.len() > 0 {
        assert(st.ifs[st.ifs.len() - 1] < st.commands.len());
        lemma_close(st, Asm { ifs: st.ifs.drop_last(), ..st }, st.ifs.last(), CommandV::EndIf, line);
    } else if st.loops.len() > 0 {
        lemma_close_loop(st, line);
    } else if st.funcs.len() > 0 {
        assert(st.funcs[st.funcs.len() - 1] < st.commands.len());
        lemma_close(
            st,
            Asm { funcs: st.funcs.drop_last(), ..st },
            st.funcs.last(),
            CommandV::EndFunction,
            line,
        );
    }
}


proof fn lemma_statement(st: Asm, syms: Seq<SymbolV>, line: usize)
    requires
        sound(st),
        st.commands.len() < usize::MAX,
    ensures
        statement(st, syms, line) matches Ok(s2) ==> sound(s2) && s2.commands.len()
            <= st.commands.len() + 1,
{
    reveal(statement);
    lemma_emit(st);
    lemma_open(st);
    lemma_open_function(st);
    lemma_close_block(st, line);
    lemma_close_block(st, crate::assembler::line_after(line));
    if st.loops.len() > 0 {
        lemma_close_loop(st, line);
    }
}

proof fn lemma_step(st: Asm, raw: Seq<TokenV>)
    requires
        sound(st),
        st.commands.len() < usize::MAX,
    ensures
        step(st, raw) matches Ok(s2) ==> sound(s2) && s2.commands.len() <= st.commands.len() + 1,
{
    reveal(step);
    let t0 = compacted(raw);
    let t1 = if t0.len() > 0 && t0[0].symbol is And {
        t0.drop_first()
    } else {
        t0
    };
    let t2 = if t1.len() > 0 && t1.last().symbol is Comma {
        t1.drop_last()
    } else {
        t1
    };
    if t2.len() > 0 {
        let line = t2[0].line;
        lemma_statement(
            Asm { last_line: line, ..st },
            crate::assembler::symbols_of(t2),
            line,
        );
    }
}

/// Every state the assembler reaches is sound, and each line adds at most
/// one command.
pub proof fn lemma_assemble_sound(lines: Seq<Seq<TokenV>>)
    requires
        lines.len() <= usize::MAX,
    ensures
        assemble(lines) matches Ok(st) ==> sound(st) && st.commands.len() <= lines.len(),
    decreases lines.len(),
{
    if lines.len() > 0 {
        lemma_assemble_sound(lines.drop_last());
        if let Ok(st) = assemble(lines.drop_last()) {
            lemma_step(st, lines.last());
        }
    } else {
        assert(crate::assembler::start_state().commands.len() == 0);
    }
}

/// Once every block has been closed, every `If`, `While`, `Until` and
/// function declaration has its jump target set.
pub proof fn law_closed_blocks_are_resolved(lines: Seq<Seq<TokenV>>)
    requires
        lines.len() <= usize::MAX,
        assemble(lines) matches Ok(st) && all_closed(st),
    ensures
        assemble(lines) matches Ok(st) && forall|i: int|
            0 <= i < st.commands.len() ==> !unresolved(#[trigger] st.commands[i].cmd),
{
    lemma_assemble_sound(lines);
}

/// For every text that parses, every `If`, `While`, `Until` and function
/// declaration of the program has its jump target set (a block left open
/// at the end is an error). The lines must fit in memory: fewer than
/// `usize::MAX + 1` of them.
pub proof fn law_terminators_set(s: Seq<char>)
    requires
        program_of(s) is Ok,
        source_lines(s) matches Some((_, ls)) && ls.len() <= usize::MAX,
    ensures
        program_of(s) matches Ok(p) && forall|i: int|
            0 <= i < p.commands.len() ==> !unresolved(#[trigger] p.commands[i].cmd),
{
    if let Some((_, ls)) = source_lines(s) {
        law_closed_blocks_are_resolved(tokens_of(s, ls));
    }
}

/// The words of the `Words` tokens, in order.
pub open spec fn bare_words(toks: Seq<TokenV>) -> Seq<Seq<char>>
    decreases toks.len(),
{
    if toks.len() == 0 {
        seq![]
    } else {
        (match toks[0].symbol {
            SymbolV::Words(w) => w,
            _ => seq![],
        }) + bare_words(toks.drop_first())
    }
}

/// The symbols other than `Words`, in order.
pub open spec fn other_symbols(toks: Seq<TokenV>) -> Seq<SymbolV>
    decreases toks.len(),
{
    if toks.len() == 0 {
        seq![]
    } else {
        (match toks[0].symbol {
            SymbolV::Words(_) => seq![],
            s => seq![s],
        }) + other_symbols(toks.drop_first())
    }
}

proof fn lemma_split_words(a: Seq<TokenV>, b: Seq<TokenV>)
    ensures
        bare_words(a + b) == bare_words(a) + bare_words(b),
        other_symbols(a + b) == other_symbols(a) + other_symbols(b),
    decreases a.len(),
{
    if a.len() == 0 {
        assert(a + b =~= b);
    } else {
        assert((a + b).drop_first() =~= a.drop_first() + b);
        lemma_split_words(a.drop_first(), b);
    }
}

proof fn lemma_single(t: TokenV)
    ensures
        bare_words(seq![t]) == (match t.symbol {
            SymbolV::Words(w) => w,
            _ => seq![],
        }),
        other_symbols(seq![t]) == (match t.symbol {
            SymbolV::Words(_) => seq![],
            s => seq![s],
        }),
{
    let one = seq![t];
    assert(one.drop_first() =~= Seq::<TokenV>::empty());
    assert(bare_words(one.drop_first()) == Seq::<Seq<char>>::empty());
    assert(other_symbols(one.drop_first()) == Seq::<SymbolV>::empty());
    assert(bare_words(one) =~= bare_words(one) + seq![]);
    assert(other_symbols(one) =~= other_symbols(one) + seq![]);
}

proof fn lemma_compact_from(toks: Seq<TokenV>, buf: Seq<Seq<char>>, l: usize)
    ensures
        bare_words(compact_from(toks, buf, l)) == buf + bare_words(toks),
        other_symbols(compact_from(toks, buf, l)) == other_symbols(toks),
    decreases toks.len(),
{
    if toks.len() == 0 {
        lemma_single(TokenV { line: l, symbol: SymbolV::Words(buf) });
        assert(buf + bare_words(toks) =~= buf);
    } else {
        match toks[0].symbol {
            SymbolV::Words(w) => {
                lemma_compact_from(toks.drop_first(), buf + w, l);
                assert(buf + w + bare_words(toks.drop_first()) =~= buf + (w + bare_words(
                    toks.drop_first(),
                )));
            },
            _ => {
                let head: Seq<TokenV> = if buf.len() > 0 {
                    seq![TokenV { line: toks[0].line, symbol: SymbolV::Words(buf) }]
                } else {
                    seq![]
                };
                let rest = compact_from(toks.drop_first(), seq![], l);
                lemma_compact_from(toks.drop_first(), seq![], l);
                lemma_split_words(head + seq![toks[0]], rest);
                lemma_split_words(head, seq![toks[0]]);
                let one = seq![toks[0]];
                lemma_single(toks[0]);
                if buf.len() > 0 {
                    lemma_single(TokenV { line: toks[0].line, symbol: SymbolV::Words(buf) });
                } else {
                    assert(bare_words(head) =~= buf);
                }
                assert(seq![] + bare_words(toks.drop_first()) =~= bare_words(toks.drop_first()));
                assert(buf + seq![] + bare_words(toks.drop_first()) =~= buf + bare_words(toks));
                assert(other_symbols(head) + other_symbols(one) + other_symbols(
                    toks.drop_first(),
                ) =~= other_symbols(toks));
            },
        }
    }
}

/// Merging bare words loses nothing: the words of the `Words` tokens, read
/// in order, are the same before and after, and so are the other symbols.
pub proof fn law_compaction_keeps_words(toks: Seq<TokenV>)
    ensures
        bare_words(compacted(toks)) == bare_words(toks),
        other_symbols(compacted(toks)) == other_symbols(toks),
{
    if toks.len() > 0 {
        lemma_compact_from(toks, seq![], toks[0].line);
        assert(seq![] + bare_words(toks) =~= bare_words(toks));
    }
}


/// From `a` to `b` the symbols alternate operand, operator, ..., operand.
pub open spec fn alternates(items: Seq<SymbolV>, a: int, b: int) -> bool {
    &&& 0 <= a <= b < items.len()
    &&& (b - a) % 2 == 0
    &&& forall|m: int| a <= m <= b ==> (#[trigger] precedence(items[m]) is Some <==> (m - a) % 2 == 1)
}

proof fn lemma_alternates_join(items: Seq<SymbolV>, a: int, b: int, c: int)
    requires
        alternates(items, a, b),
        alternates(items, b, c),
    ensures
        alternates(items, a, c),
{
    assert forall|m: int| a <= m <= c implies (#[trigger] precedence(items[m]) is Some <==> (m
        - a) % 2 == 1) by {
        if m >= b {
            assert((m - a) % 2 == (m - b) % 2);
        }
    }
}

proof fn lemma_next_operator(items: Seq<SymbolV>, i: int)
    ensures
        next_operator(items, i) matches Some(j) ==> i <= j < items.len() && precedence(items[j]) is Some,
    decreases items.len() - i,
{
    if 0 <= i < items.len() && precedence(items[i]) is None {
        lemma_next_operator(items, i + 1);
    }
}

proof fn lemma_climb_alternates(items: Seq<SymbolV>, index: int, lhs: ExprV, min: nat, line: usize)
    requires
        0 <= index < items.len(),
        precedence(items[index]) is None,
    ensures
        climb(items, index, lhs, min, line) matches Ok((_, k)) ==> alternates(items, index, k),
    decreases items.len() - index, 0nat,
{
    lemma_next_operator(items, index);
    assert(alternates(items, index, index));
    if let Some(j) = next_operator(items, index) {
        if j == index + 1 && j + 1 < items.len() {
            if let Ok(rhs) = operand(items[j + 1], line) {
                let p = crate::expression::binding(items[j]);
                if p >= min {
                    lemma_tighter_alternates(items, j + 1, rhs, p, line);
                    if let Ok((rhs2, k)) = tighter(items, j + 1, rhs, p, line) {
                        if index < k <= items.len() {
                            assert(alternates(items, index, index + 2));
                            lemma_alternates_join(items, index, index + 2, k);
                            let folded = ExprV::Binary(
                                crate::expression::operator(items[j]),
                                Box::new(lhs),
                                Box::new(rhs2),
                            );
                            lemma_climb_alternates(items, k, folded, min, line);
                            if let Ok((_, k2)) = climb(items, k, folded, min, line) {
                                lemma_alternates_join(items, index, k, k2);
                            }
                        }
                    }
                }
            }
        }
    }
}

proof fn lemma_tighter_alternates(items: Seq<SymbolV>, index: int, rhs: ExprV, p: nat, line: usize)
    requires
        0 <= index < items.len(),
        precedence(items[index]) is None,
    ensures
        tighter(items, index, rhs, p, line) matches Ok((_, k)) ==> alternates(items, index, k),
    decreases items.len() - index, 1nat,
{
    lemma_next_operator(items, index);
    assert(alternates(items, index, index));
    if let Some(l) = next_operator(items, index) {
        if l == index + 1 {
            let b = crate::expression::binding(items[l]);
            if b > p {
                lemma_climb_alternates(items, index, rhs, b, line);
                if let Ok((r2, k)) = climb(items, index, rhs, b, line) {
                    if index < k <= items.len() {
                        lemma_tighter_alternates(items, k, r2, p, line);
                        if let Ok((_, k2)) = tighter(items, k, r2, p, line) {
                            lemma_alternates_join(items, index, k, k2);
                        }
                    }
                }
            }
        }
    }
}

/// An expression parses only when its symbols alternate operand and
/// operator, starting and ending with an operand: every symbol is used.
pub proof fn law_expression_alternates(items: Seq<SymbolV>, line: usize)
    requires
        expression_of(items, line) is Ok,
    ensures
        items.len() % 2 == 1,
        alternates(items, 0, items.len() - 1),
{
    let lhs = operand(items[0], line)->Ok_0;
    lemma_climb_alternates(items, 0, lhs, 0, line);
}


/// No two entries of the function table have the same name.
pub open spec fn names_unique(fs: Seq<(Seq<char>, crate::program::FunctionV)>) -> bool {
    forall|i: int, j: int| 0 <= i < j < fs.len() ==> #[trigger] fs[i].0 != #[trigger] fs[j].0
}

proof fn lemma_find_function(fs: Seq<(Seq<char>, crate::program::FunctionV)>, name: Seq<char>, i: int)
    requires
        0 <= i,
    ensures
        find_function(fs, name, i) matches Some(j) ==> i <= j < fs.len() && fs[j].0 == name,
        find_function(fs, name, i) is None ==> forall|k: int| i <= k < fs.len() ==> fs[k].0 != name,
    decreases fs.len() - i,
{
    if i < fs.len() && fs[i].0 != name {
        lemma_find_function(fs, name, i + 1);
    }
}

proof fn lemma_declare_unique(fs: Seq<(Seq<char>, crate::program::FunctionV)>)
    requires
        names_unique(fs),
    ensures
        forall|name: Seq<char>, f: crate::program::FunctionV|
            names_unique(#[trigger] declare(fs, name, f)),
{
    assert forall|name: Seq<char>, f: crate::program::FunctionV|
        names_unique(#[trigger] declare(fs, name, f)) by {
        lemma_find_function(fs, name, 0);
        let d = declare(fs, name, f);
        match find_function(fs, name, 0) {
            Some(j) => {
                assert forall|a: int, b: int| 0 <= a < b < d.len() implies #[trigger] d[a].0
                    != #[trigger] d[b].0 by {
                    assert(d[a].0 == fs[a].0);
                    assert(d[b].0 == fs[b].0);
                }
            },
            None => {
                assert forall|a: int, b: int| 0 <= a < b < d.len() implies #[trigger] d[a].0
                    != #[trigger] d[b].0 by {
                    if b == fs.len() {
                        assert(d[a].0 == fs[a].0);
                    } else {
                        assert(d[a] == fs[a] && d[b] == fs[b]);
                    }
                }
            },
        }
    }
}

proof fn lemma_step_unique(st: Asm, raw: Seq<TokenV>)
    requires
        names_unique(st.functions),
    ensures
        step(st, raw) matches Ok(s2) ==> names_unique(s2.functions),
{
    reveal(step);
    reveal(statement);
    lemma_declare_unique(st.functions);
}

/// Every function table the assembler builds has each name once: a later
/// declaration of a name replaces the earlier entry.
pub proof fn lemma_assemble_unique(lines: Seq<Seq<TokenV>>)
    ensures
        assemble(lines) matches Ok(st) ==> names_unique(st.functions),
    decreases lines.len(),
{
    if lines.len() > 0 {
        lemma_assemble_unique(lines.drop_last());
        if let Ok(st) = assemble(lines.drop_last()) {
            lemma_step_unique(st, lines.last());
        }
    }
}

/// In every program that a text parses to, no two functions share a name.
pub proof fn law_function_names_unique(s: Seq<char>)
    requires
        program_of(s) is Ok,
    ensures
        program_of(s) matches Ok(p) && names_unique(p.functions),
{
    if let Some((_, ls)) = source_lines(s) {
        lemma_assemble_unique(tokens_of(s, ls));
    }
}


/// A `Words` symbol read at `p` holds exactly one word: the source text it
/// was read from. Together with the compaction law, re-joining the words of
/// a merged literal gives back the source words in order.
pub proof fn law_bare_word_is_source(s: Seq<char>, p: int)
    ensures
        crate::lexer::word_at(s, p) matches Some((q, SymbolV::Words(ws))) ==> ws == seq![
            s.subrange(p, q),
        ],
{
    let k = crate::lexer::keyword_at(s, p);
    assert(k matches Some((_, sym)) ==> !(sym is Words));
}


/// The poetic value of words: the word `k` of `n` gives the digit
/// `length mod 10`, worth `10^(n-1-k)`; the value is their sum.
pub proof fn law_poetic_digits(ws: Seq<Seq<char>>)
    ensures
        decimal(poetic_digits(ws)) == positional(poetic_digits(ws)),
{
    lemma_decimal_positional(poetic_digits(ws));
}

} // verus!
