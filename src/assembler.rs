//! The block assembler: one pass over the lexed lines that emits the flat
//! command list, fills in jump targets when blocks close, and records each
//! declared function.

use vstd::prelude::*;
use vstd::pervasive::VecAdditionalExecFns;
use crate::expression::{expression_of, parse_expression, variable_list, variables};
use crate::program::{
    commands_view, functions_view, Command, CommandLine, CommandLineV, CommandV, ErrorV, ExprV,
    Function, FunctionV, ParseError, Program, ProgramV,
};
use crate::laws::{lemma_assemble_sound, unresolved};
use crate::symbols::{lines_view, symbols_view, tokens_view, Symbol, SymbolV, Token, TokenV};

verus! {

/// Merges each run of adjacent `Words` tokens into one, whose words are
/// those of the run in order. A merged token takes the line of the token
/// after the run, or `first_line` at the end.
pub open spec fn compact_from(toks: Seq<TokenV>, buf: Seq<Seq<char>>, first_line: usize) -> Seq<
    TokenV,
>
    decreases toks.len(),
{
    if toks.len() == 0 {
        if buf.len() > 0 {
            seq![TokenV { line: first_line, symbol: SymbolV::Words(buf) }]
        } else {
            seq![]
        }
    } else {
        match toks[0].symbol {
            SymbolV::Words(w) => compact_from(toks.drop_first(), buf + w, first_line),
            _ => (if buf.len() > 0 {
                seq![TokenV { line: toks[0].line, symbol: SymbolV::Words(buf) }]
            } else {
                seq![]
            }) + seq![toks[0]] + compact_from(toks.drop_first(), seq![], first_line),
        }
    }
}

pub open spec fn compacted(toks: Seq<TokenV>) -> Seq<TokenV> {
    if toks.len() == 0 {
        seq![]
    } else {
        compact_from(toks, seq![], toks[0].line)
    }
}

/// Merges adjacent bare-word tokens of one line.
pub fn compact_words(line: Vec<Token>) -> (r: Vec<Token>)
    requires
        line@.len() > 0,
    ensures
        tokens_view(r@) == compacted(tokens_view(line@)),
{
    let pos = line[0].line;
    let ghost all = tokens_view(line@);
    let mut rest = line;
    let mut symbols: Vec<Token> = Vec::new();
    let mut words: Vec<String> = Vec::new();
    while rest.len() > 0
        invariant
            tokens_view(symbols@) + compact_from(tokens_view(rest@), words.deep_view(), pos)
                == compact_from(all, seq![], pos),
        decreases rest@.len(),
    {
        let ghost before = tokens_view(rest@);
        let ghost out = tokens_view(symbols@);
        let ghost buf = words.deep_view();
        let word = rest.remove(0);
        assert(tokens_view(rest@) =~= before.drop_first());
        match word.symbol {
            Symbol::Words(other) => {
                let mut other = other;
                words.append(&mut other);
                assert(words.deep_view() =~= buf + before[0].symbol->Words_0);
            },
            _ => {
                if words.len() > 0 {
                    symbols.push(Token { line: word.line, symbol: Symbol::Words(words) });
                    words = Vec::new();
                }
                symbols.push(word);
                assert(tokens_view(symbols@) =~= out + (if buf.len() > 0 {
                    seq![TokenV { line: before[0].line, symbol: SymbolV::Words(buf) }]
                } else {
                    seq![]
                }) + seq![before[0]]);
                assert(words.deep_view() =~= seq![]);
            },
        }
    }
    if words.len() > 0 {
        let ghost buf = words.deep_view();
        let ghost out = tokens_view(symbols@);
        symbols.push(Token { line: pos, symbol: Symbol::Words(words) });
        assert(tokens_view(symbols@) =~= out + seq![
            TokenV { line: pos, symbol: SymbolV::Words(buf) },
        ]);
    } else {
        assert(tokens_view(symbols@) =~= tokens_view(symbols@) + seq![]);
    }
    symbols
}


/// The assembler's state between lines: the commands so far, the declared
/// functions, the open loops, functions and ifs (as command positions, the
/// innermost last), and the line of the last statement.
pub ghost struct Asm {
    pub commands: Seq<CommandLineV>,
    pub functions: Seq<(Seq<char>, FunctionV)>,
    pub loops: Seq<usize>,
    pub funcs: Seq<usize>,
    pub ifs: Seq<usize>,
    pub last_line: usize,
}

pub open spec fn start_state() -> Asm {
    Asm {
        commands: seq![],
        functions: seq![],
        loops: seq![],
        funcs: seq![],
        ifs: seq![],
        last_line: 0,
    }
}

/// The following line number (it stops at the largest `usize`).
pub open spec fn line_after(l: usize) -> usize {
    if l < usize::MAX {
        (l + 1) as usize
    } else {
        l
    }
}

/// Sets the jump target of a block-opening command if it is not set yet.
pub open spec fn set_end(c: CommandLineV, v: usize) -> CommandLineV {
    match c.cmd {
        CommandV::If(e, None) => CommandLineV { cmd: CommandV::If(e, Some(v)), ..c },
        CommandV::While(e, None) => CommandLineV { cmd: CommandV::While(e, Some(v)), ..c },
        CommandV::Until(e, None) => CommandLineV { cmd: CommandV::Until(e, Some(v)), ..c },
        CommandV::FunctionDeclaration(n, a, None) => CommandLineV {
            cmd: CommandV::FunctionDeclaration(n, a, Some(v)),
            ..c
        },
        _ => c,
    }
}

/// Appends a command.
pub open spec fn emit(st: Asm, cmd: CommandV, line: usize) -> Asm {
    Asm { commands: st.commands.push(CommandLineV { cmd, line }), ..st }
}

/// Closes the block opened at command `k` and appends its terminator.
pub open spec fn close(st: Asm, k: usize, cmd: CommandV, line: usize) -> Asm {
    let n = st.commands.len() as usize;
    Asm {
        commands: st.commands.update(k as int, set_end(st.commands[k as int], n)).push(
            CommandLineV { cmd, line },
        ),
        ..st
    }
}

/// Closes the innermost loop with a `Next` back to its start.
pub open spec fn close_loop(st: Asm, line: usize) -> Asm {
    let k = st.loops.last();
    close(Asm { loops: st.loops.drop_last(), ..st }, k, CommandV::Next(k), line)
}

/// A blank line or lone comment closes the innermost if, else the innermost
/// loop, else the innermost function; with none open it does nothing.
pub open spec fn close_block(st: Asm, line: usize) -> Asm {
    if st.ifs.len() > 0 {
        close(Asm { ifs: st.ifs.drop_last(), ..st }, st.ifs.last(), CommandV::EndIf, line)
    } else if st.loops.len() > 0 {
        close_loop(st, line)
    } else if st.funcs.len() > 0 {
        close(
            Asm { funcs: st.funcs.drop_last(), ..st },
            st.funcs.last(),
            CommandV::EndFunction,
            line,
        )
    } else {
        st
    }
}

/// The first entry of `fs` at or after `i` named `name`.
pub open spec fn find_function(fs: Seq<(Seq<char>, FunctionV)>, name: Seq<char>, i: int) -> Option<
    int,
>
    decreases fs.len() - i,
{
    if i < 0 || i >= fs.len() {
        None
    } else if fs[i].0 == name {
        Some(i)
    } else {
        find_function(fs, name, i + 1)
    }
}

/// Records a function: replaces the entry of the same name, or appends one.
pub open spec fn declare(fs: Seq<(Seq<char>, FunctionV)>, name: Seq<char>, f: FunctionV) -> Seq<
    (Seq<char>, FunctionV),
> {
    match find_function(fs, name, 0) {
        Some(i) => fs.update(i, (name, f)),
        None => fs.push((name, f)),
    }
}

/// Parameter names separated by `and` or `,`.
pub open spec fn parameters(syms: Seq<SymbolV>) -> Option<Seq<Seq<char>>>
    decreases syms.len(),
{
    if syms.len() == 0 {
        None
    } else {
        match syms[0] {
            SymbolV::Variable(a) => if syms.len() == 1 {
                Some(seq![a])
            } else if syms[1] is And || syms[1] is Comma {
                match parameters(syms.subrange(2, syms.len() as int)) {
                    Some(r) => Some(seq![a] + r),
                    None => None,
                }
            } else {
                None
            },
            _ => None,
        }
    }
}

/// Assigns or opens a block with an expression, or passes its error on.
pub open spec fn with_expression(
    syms: Seq<SymbolV>,
    lo: int,
    hi: int,
    line: usize,
    f: spec_fn(ExprV) -> Asm,
) -> Result<Asm, ErrorV> {
    match expression_of(syms.subrange(lo, hi), line) {
        Ok(e) => Ok(f(e)),
        Err(e) => Err(e),
    }
}

/// One statement, with its filler already stripped.
#[verifier::opaque]
pub open spec fn statement(st: Asm, syms: Seq<SymbolV>, line: usize) -> Result<Asm, ErrorV> {
    let len = syms.len() as int;
    let n = st.commands.len() as usize;
    if len == 3 && syms[0] is Build && syms[1] is Variable && syms[2] is Up {
        Ok(emit(st, CommandV::Increment(syms[1]->Variable_0), line))
    } else if len == 3 && syms[0] is Knock && syms[1] is Variable && syms[2] is Down {
        Ok(emit(st, CommandV::Decrement(syms[1]->Variable_0), line))
    } else if len == 1 && syms[0] is Next {
        if st.loops.len() > 0 {
            Ok(close_loop(st, line))
        } else {
            Err(ErrorV::BadCommandSequence(syms, line))
        }
    } else if len == 1 && syms[0] is Continue {
        if st.loops.len() > 0 {
            Ok(emit(st, CommandV::Continue(st.loops.last()), line))
        } else {
            Err(ErrorV::BadCommandSequence(syms, line))
        }
    } else if len == 1 && syms[0] is Newline {
        Ok(close_block(st, line_after(line)))
    } else if len == 1 && syms[0] is Comment {
        Ok(close_block(st, line))
    } else if len == 1 && syms[0] is Taking {
        Ok(
            emit(
                st,
                CommandV::Call(syms[0]->Taking_0, variables(syms[0]->Taking_1)),
                line,
            ),
        )
    } else if syms[0] is Say && len > 1 {
        with_expression(syms, 1, len, line, |e: ExprV| emit(st, CommandV::Say(e), line))
    } else if len > 1 && syms[1] is Is {
        if syms[0] is Variable {
            with_expression(
                syms,
                2,
                len,
                line,
                |e: ExprV| emit(st, CommandV::Assignment(syms[0]->Variable_0, e), line),
            )
        } else {
            Err(ErrorV::BadIs(syms, line))
        }
    } else if syms[0] is Until && len > 1 {
        with_expression(
            syms,
            1,
            len,
            line,
            |e: ExprV| emit(Asm { loops: st.loops.push(n), ..st }, CommandV::Until(e, None), line),
        )
    } else if syms[0] is While && len > 1 {
        with_expression(
            syms,
            1,
            len,
            line,
            |e: ExprV| emit(Asm { loops: st.loops.push(n), ..st }, CommandV::While(e, None), line),
        )
    } else if syms[0] is If && len > 1 {
        with_expression(
            syms,
            1,
            len,
            line,
            |e: ExprV| emit(Asm { ifs: st.ifs.push(n), ..st }, CommandV::If(e, None), line),
        )
    } else if len > 3 && syms[0] is Put && syms[len - 2] is Where {
        if syms[len - 1] is Variable {
            with_expression(
                syms,
                1,
                len - 2,
                line,
                |e: ExprV| emit(st, CommandV::Assignment(syms[len - 1]->Variable_0, e), line),
            )
        } else {
            Err(ErrorV::BadPut(syms, line))
        }
    } else if len > 2 && syms[1] is Takes {
        match (syms[0], parameters(syms.subrange(2, len))) {
            (SymbolV::Variable(name), Some(ps)) => Ok(
                emit(
                    Asm {
                        funcs: st.funcs.push(n),
                        functions: declare(st.functions, name, FunctionV { location: n, args: ps }),
                        ..st
                    },
                    CommandV::FunctionDeclaration(name, ps, None),
                    line,
                ),
            ),
            _ => Err(ErrorV::BadFunctionDeclaration(syms, line)),
        }
    } else if syms[0] is Return && len > 1 {
        with_expression(syms, 1, len, line, |e: ExprV| emit(st, CommandV::Return(e), line))
    } else {
        Err(ErrorV::BadCommandSequence(syms, line))
    }
}

pub open spec fn symbols_of(toks: Seq<TokenV>) -> Seq<SymbolV> {
    toks.map_values(|t: TokenV| t.symbol)
}

/// One lexed line: merge bare words, drop a leading `and` and a trailing
/// comma, then read the statement.
#[verifier::opaque]
pub open spec fn step(st: Asm, raw: Seq<TokenV>) -> Result<Asm, ErrorV> {
    let t0 = compacted(raw);
    let t1 = if t0.len() > 0 && t0[0].symbol is And {
        t0.drop_first()
    } else {
        t0
    };
    let t2 = if t1.len() > 0 && t1.last().symbol is Comma {
        t1.drop_last()
    } else {
        t1
    };
    if t2.len() == 0 {
        Err(ErrorV::NoSymbols(line_after(st.last_line)))
    } else {
        let line = t2[0].line;
        statement(Asm { last_line: line, ..st }, symbols_of(t2), line)
    }
}

/// The state after the given lines, or the first error.
pub open spec fn assemble(lines: Seq<Seq<TokenV>>) -> Result<Asm, ErrorV>
    decreases lines.len(),
{
    if lines.len() == 0 {
        Ok(start_state())
    } else {
        match assemble(lines.drop_last()) {
            Ok(st) => step(st, lines.last()),
            Err(e) => Err(e),
        }
    }
}


/// The assembler's working state (see [`Asm`]).
pub struct Assembly {
    pub commands: Vec<CommandLine>,
    pub functions: Vec<(String, Function)>,
    pub loop_starts: Vec<usize>,
    pub func_starts: Vec<usize>,
    pub if_starts: Vec<usize>,
    pub last_line: usize,
}

impl View for Assembly {
    type V = Asm;

    open spec fn view(&self) -> Asm {
        Asm {
            commands: commands_view(self.commands@),
            functions: functions_view(self.functions@),
            loops: self.loop_starts@,
            funcs: self.func_starts@,
            ifs: self.if_starts@,
            last_line: self.last_line,
        }
    }
}

/// Every open block refers to a command that exists.
pub open spec fn well_formed(st: Asm) -> bool {
    &&& forall|i: int| 0 <= i < st.loops.len() ==> #[trigger] st.loops[i] < st.commands.len()
    &&& forall|i: int| 0 <= i < st.funcs.len() ==> #[trigger] st.funcs[i] < st.commands.len()
    &&& forall|i: int| 0 <= i < st.ifs.len() ==> #[trigger] st.ifs[i] < st.commands.len()
}

pub open spec fn outcome(r: Result<(), ParseError>, after: Asm, spec: Result<Asm, ErrorV>) -> bool {
    match spec {
        Ok(st) => r is Ok && after == st && well_formed(after),
        Err(e) => r matches Err(x) && x@ == e,
    }
}

fn set_end_at(commands: &mut Vec<CommandLine>, k: usize, v: usize)
    requires
        k < old(commands)@.len(),
    ensures
        commands_view(final(commands)@) == commands_view(old(commands)@).update(
            k as int,
            set_end(old(commands)@[k as int]@, v),
        ),
{
    let mut c = CommandLine { cmd: Command::EndIf, line: 0 };
    commands.set_and_swap(k, &mut c);
    let CommandLine { cmd, line } = c;
    let cmd = match cmd {
        Command::If { expression, if_end: None } => Command::If { expression, if_end: Some(v) },
        Command::While { expression, loop_end: None } => Command::While {
            expression,
            loop_end: Some(v),
        },
        Command::Until { expression, loop_end: None } => Command::Until {
            expression,
            loop_end: Some(v),
        },
        Command::FunctionDeclaration { name, args, func_end: None } => Command::FunctionDeclaration {
            name,
            args,
            func_end: Some(v),
        },
        other => other,
    };
    let mut c = CommandLine { cmd, line };
    commands.set_and_swap(k, &mut c);
    assert(commands_view(commands@) =~= commands_view(old(commands)@).update(
        k as int,
        set_end(old(commands)@[k as int]@, v),
    ));
}

fn copy_names(v: &Vec<String>) -> (r: Vec<String>)
    ensures
        r.deep_view() == v.deep_view(),
{
    let mut out: Vec<String> = Vec::new();
    let mut i: usize = 0;
    while i < v.len()
        invariant
            i <= v@.len(),
            out.deep_view() == v.deep_view().subrange(0, i as int),
        decreases v@.len() - i,
    {
        let c = v[i].clone();
        let ghost before = out.deep_view();
        out.push(c);
        assert(out.deep_view() =~= before.push(c@));
        i = i + 1;
        assert(out.deep_view() =~= v.deep_view().subrange(0, i as int));
    }
    assert(v.deep_view().subrange(0, i as int) =~= v.deep_view());
    out
}

fn parameters_here(syms: &Vec<Symbol>, lo: usize) -> (r: Option<Vec<String>>)
    requires
        lo <= syms@.len(),
    ensures
        match parameters(symbols_view(syms@).subrange(lo as int, syms@.len() as int)) {
            Some(ps) => r matches Some(v) && v.deep_view() == ps,
            None => r is None,
        },
    decreases syms@.len() - lo,
{
    let ghost w = symbols_view(syms@).subrange(lo as int, syms@.len() as int);
    if lo >= syms.len() {
        return None;
    }
    assert(w[0] == syms@[lo as int]@);
    match &syms[lo] {
        Symbol::Variable(a) => {
            if lo + 1 == syms.len() {
                let mut v: Vec<String> = Vec::new();
                v.push(a.clone());
                assert(v.deep_view() =~= seq![a@]);
                Some(v)
            } else {
                assert(w[1] == syms@[lo + 1]@);
                if matches!(syms[lo + 1], Symbol::And) || matches!(syms[lo + 1], Symbol::Comma) {
                    assert(w.subrange(2, w.len() as int) =~= symbols_view(syms@).subrange(
                        lo + 2,
                        syms@.len() as int,
                    ));
                    match parameters_here(syms, lo + 2) {
                        Some(rest) => {
                            let mut rest = rest;
                            let mut v: Vec<String> = Vec::new();
                            v.push(a.clone());
                            let ghost tail = rest.deep_view();
                            v.append(&mut rest);
                            assert(v.deep_view() =~= seq![a@] + tail);
                            Some(v)
                        },
                        None => None,
                    }
                } else {
                    None
                }
            }
        },
        _ => None,
    }
}

impl Assembly {
    pub fn new() -> (r: Assembly)
        ensures
            r@ == start_state(),
            well_formed(r@),
    {
        let r = Assembly {
            commands: Vec::new(),
            functions: Vec::new(),
            loop_starts: Vec::new(),
            func_starts: Vec::new(),
            if_starts: Vec::new(),
            last_line: 0,
        };
        assert(r@.commands =~= seq![]);
        assert(r@.functions =~= seq![]);
        r
    }

    fn emit(&mut self, cmd: Command, line: usize)
        ensures
            final(self)@ == emit(old(self)@, cmd@, line),
    {
        let ghost before = self@;
        self.commands.push(CommandLine { cmd, line });
        assert(self@.commands =~= before.commands.push(CommandLineV { cmd: cmd@, line }));
    }

    fn close(&mut self, k: usize, cmd: Command, line: usize)
        requires
            k < old(self).commands@.len(),
        ensures
            final(self)@ == close(old(self)@, k, cmd@, line),
    {
        let n = self.commands.len();
        set_end_at(&mut self.commands, k, n);
        self.emit(cmd, line);
    }

    fn close_loop(&mut self, line: usize)
        requires
            old(self)@.loops.len() > 0,
            well_formed(old(self)@),
        ensures
            final(self)@ == close_loop(old(self)@, line),
            well_formed(final(self)@),
    {
        let k = self.loop_starts.pop().unwrap();
        assert(old(self)@.loops.last() == k);
        self.close(k, Command::Next { loop_start: k }, line);
        assert(self@.loops =~= old(self)@.loops.drop_last());
        assert(forall|i: int| 0 <= i < self@.loops.len() ==> self@.loops[i] == old(self)@.loops[i]);
        assert(self@.commands.len() == old(self)@.commands.len() + 1);
        assert(self@.funcs == old(self)@.funcs);
        assert(self@.ifs == old(self)@.ifs);
    }

    fn close_block(&mut self, line: usize)
        requires
            well_formed(old(self)@),
        ensures
            final(self)@ == close_block(old(self)@, line),
            well_formed(final(self)@),
    {
        if self.if_starts.len() > 0 {
            let k = self.if_starts.pop().unwrap();
            assert(self@.ifs =~= old(self)@.ifs.drop_last());
            self.close(k, Command::EndIf, line);
            assert(forall|i: int| 0 <= i < self@.ifs.len() ==> self@.ifs[i] == old(self)@.ifs[i]);
        } else if self.loop_starts.len() > 0 {
            self.close_loop(line);
        } else if self.func_starts.len() > 0 {
            let k = self.func_starts.pop().unwrap();
            assert(self@.funcs =~= old(self)@.funcs.drop_last());
            self.close(k, Command::EndFunction, line);
            assert(forall|i: int|
                0 <= i < self@.funcs.len() ==> self@.funcs[i] == old(self)@.funcs[i]);
        }
    }

    fn declare(&mut self, name: String, f: Function)
        ensures
            final(self)@ == (Asm {
                functions: declare(old(self)@.functions, name@, f@),
                ..old(self)@
            }),
    {
        let ghost fs = old(self)@.functions;
        let mut i: usize = 0;
        while i < self.functions.len()
            invariant
                i <= self.functions@.len(),
                self@ == old(self)@,
                fs == functions_view(self.functions@),
                fs.len() == self.functions@.len(),
                find_function(fs, name@, i as int) == find_function(fs, name@, 0),
            decreases self.functions@.len() - i,
        {
            assert(fs[i as int].0 == self.functions@[i as int].0@);
            if self.functions[i].0 == name {
                let mut entry = (name, f);
                let ghost fv = (entry.0@, entry.1@);
                self.functions.set_and_swap(i, &mut entry);
                assert(self@.functions =~= fs.update(i as int, fv));
                return;
            }
            i = i + 1;
        }
        let ghost fv = (name@, f@);
        self.functions.push((name, f));
        assert(self@.functions =~= fs.push(fv));
    }

    /// Opens a block at the next command position on one of the stacks.
    fn open_expression(
        &mut self,
        syms: &Vec<Symbol>,
        lo: usize,
        hi: usize,
        line: usize,
        kind: u8,
    ) -> (r: Result<(), ParseError>)
        requires
            lo <= hi <= syms@.len(),
            well_formed(old(self)@),
        ensures
            ({
                let st = old(self)@;
                let n = st.commands.len() as usize;
                outcome(
                    r,
                    final(self)@,
                    with_expression(
                        symbols_view(syms@),
                        lo as int,
                        hi as int,
                        line,
                        |e: ExprV|
                            if kind == 0 {
                                emit(
                                    Asm { loops: st.loops.push(n), ..st },
                                    CommandV::Until(e, None),
                                    line,
                                )
                            } else if kind == 1 {
                                emit(
                                    Asm { loops: st.loops.push(n), ..st },
                                    CommandV::While(e, None),
                                    line,
                                )
                            } else {
                                emit(Asm { ifs: st.ifs.push(n), ..st }, CommandV::If(e, None), line)
                            },
                    ),
                )
            }),
    {
        let e = match parse_expression(syms, lo, hi, line) {
            Ok(e) => e,
            Err(e) => {
                return Err(e);
            },
        };
        let n = self.commands.len();
        if kind == 0 {
            self.loop_starts.push(n);
            self.emit(Command::Until { expression: e, loop_end: None }, line);
        } else if kind == 1 {
            self.loop_starts.push(n);
            self.emit(Command::While { expression: e, loop_end: None }, line);
        } else {
            self.if_starts.push(n);
            self.emit(Command::If { expression: e, if_end: None }, line);
        }
        assert(forall|i: int| 0 <= i < old(self)@.loops.len() ==> self@.loops[i] == old(self)@.loops[i]);
        assert(forall|i: int| 0 <= i < old(self)@.ifs.len() ==> self@.ifs[i] == old(self)@.ifs[i]);
        Ok(())
    }

    /// Reads one statement whose filler is already stripped.
    pub fn statement(&mut self, syms: Vec<Symbol>, line: usize) -> (r: Result<(), ParseError>)
        requires
            syms@.len() > 0,
            well_formed(old(self)@),
        ensures
            outcome(r, final(self)@, statement(old(self)@, symbols_view(syms@), line)),
    {
        reveal(statement);
        let ghost sv = symbols_view(syms@);
        let len = syms.len();
        assert(forall|i: int| 0 <= i < len ==> sv[i] == (#[trigger] syms@[i])@);
        if len == 3 && matches!(syms[0], Symbol::Build) && matches!(syms[2], Symbol::Up) {
            if let Symbol::Variable(target) = &syms[1] {
                self.emit(Command::Increment { target: target.clone() }, line);
                return Ok(());
            }
        }
        if len == 3 && matches!(syms[0], Symbol::Knock) && matches!(syms[2], Symbol::Down) {
            if let Symbol::Variable(target) = &syms[1] {
                self.emit(Command::Decrement { target: target.clone() }, line);
                return Ok(());
            }
        }
        if len == 1 && matches!(syms[0], Symbol::Next) {
            if self.loop_starts.len() > 0 {
                self.close_loop(line);
                return Ok(());
            } else {
                return Err(ParseError::BadCommandSequence(syms, line));
            }
        }
        if len == 1 && matches!(syms[0], Symbol::Continue) {
            if self.loop_starts.len() > 0 {
                let k = self.loop_starts[self.loop_starts.len() - 1];
                self.emit(Command::Continue { loop_start: k }, line);
                return Ok(());
            } else {
                return Err(ParseError::BadCommandSequence(syms, line));
            }
        }
        if len == 1 && matches!(syms[0], Symbol::Newline) {
            let next = if line < usize::MAX {
                line + 1
            } else {
                line
            };
            self.close_block(next);
            return Ok(());
        }
        if len == 1 && matches!(syms[0], Symbol::Comment) {
            self.close_block(line);
            return Ok(());
        }
        if len == 1 {
            if let Symbol::Taking { target, args } = &syms[0] {
                self.emit(Command::Call { name: target.clone(), args: variable_list(args) }, line);
                return Ok(());
            }
        }
        if matches!(syms[0], Symbol::Say) && len > 1 {
            return match parse_expression(&syms, 1, len, line) {
                Ok(e) => {
                    self.emit(Command::Say { value: e }, line);
                    Ok(())
                },
                Err(e) => Err(e),
            };
        }
        if len > 1 && matches!(syms[1], Symbol::Is) {
            let target = match &syms[0] {
                Symbol::Variable(t) => t.clone(),
                _ => {
                    return Err(ParseError::BadIs(syms, line));
                },
            };
            return match parse_expression(&syms, 2, len, line) {
                Ok(e) => {
                    self.emit(Command::Assignment { target, value: e }, line);
                    Ok(())
                },
                Err(e) => Err(e),
            };
        }
        if matches!(syms[0], Symbol::Until) && len > 1 {
            return self.open_expression(&syms, 1, len, line, 0);
        }
        if matches!(syms[0], Symbol::While) && len > 1 {
            return self.open_expression(&syms, 1, len, line, 1);
        }
        if matches!(syms[0], Symbol::If) && len > 1 {
            return self.open_expression(&syms, 1, len, line, 2);
        }
        if len > 3 && matches!(syms[0], Symbol::Put) && matches!(syms[len - 2], Symbol::Where) {
            let target = match &syms[len - 1] {
                Symbol::Variable(t) => t.clone(),
                _ => {
                    return Err(ParseError::BadPut(syms, line));
                },
            };
            return match parse_expression(&syms, 1, len - 2, line) {
                Ok(e) => {
                    self.emit(Command::Assignment { target, value: e }, line);
                    Ok(())
                },
                Err(e) => Err(e),
            };
        }
        if len > 2 && matches!(syms[1], Symbol::Takes) {
            let name = match &syms[0] {
                Symbol::Variable(n) => n.clone(),
                _ => {
                    return Err(ParseError::BadFunctionDeclaration(syms, line));
                },
            };
            let args = match parameters_here(&syms, 2) {
                Some(a) => a,
                None => {
                    return Err(ParseError::BadFunctionDeclaration(syms, line));
                },
            };
            let n = self.commands.len();
            self.func_starts.push(n);
            self.declare(name.clone(), Function { location: n, args: copy_names(&args) });
            self.emit(Command::FunctionDeclaration { name, args, func_end: None }, line);
            assert(forall|i: int| 0 <= i < old(self)@.funcs.len() ==> self@.funcs[i] == old(self)@.funcs[i]);
            return Ok(());
        }
        if matches!(syms[0], Symbol::Return) && len > 1 {
            return match parse_expression(&syms, 1, len, line) {
                Ok(e) => {
                    self.emit(Command::Return { return_value: e }, line);
                    Ok(())
                },
                Err(e) => Err(e),
            };
        }
        Err(ParseError::BadCommandSequence(syms, line))
    }

    /// Reads one lexed line (see [`step`]).
    pub fn step(&mut self, raw: Vec<Token>) -> (r: Result<(), ParseError>)
        requires
            well_formed(old(self)@),
        ensures
            outcome(r, final(self)@, step(old(self)@, tokens_view(raw@))),
    {
        reveal(step);
        let ghost t0 = compacted(tokens_view(raw@));
        let mut toks = if raw.len() > 0 {
            compact_words(raw)
        } else {
            raw
        };
        if toks.len() > 0 && matches!(toks[0].symbol, Symbol::And) {
            toks.remove(0);
            assert(tokens_view(toks@) =~= t0.drop_first());
        }
        let ghost t1 = tokens_view(toks@);
        if toks.len() > 0 && matches!(toks[toks.len() - 1].symbol, Symbol::Comma) {
            toks.pop();
            assert(tokens_view(toks@) =~= t1.drop_last());
        }
        if toks.len() == 0 {
            let next = if self.last_line < usize::MAX {
                self.last_line + 1
            } else {
                self.last_line
            };
            return Err(ParseError::NoSymbols(next));
        }
        let line = toks[0].line;
        self.last_line = line;
        let ghost t2 = tokens_view(toks@);
        let mut syms: Vec<Symbol> = Vec::new();
        let total = toks.len();
        let mut i: usize = 0;
        while toks.len() > 0
            invariant
                total == t2.len(),
                i + toks@.len() == t2.len(),
                symbols_view(syms@) == symbols_of(t2.subrange(0, i as int)),
                forall|j: int| 0 <= j < toks@.len() ==> (#[trigger] toks@[j])@ == t2[i + j],
            decreases toks@.len(),
        {
            let t = toks.remove(0);
            assert(t@ == t2[i as int]);
            let ghost before = symbols_view(syms@);
            syms.push(t.symbol);
            assert(symbols_view(syms@) =~= before.push(t2[i as int].symbol));
            assert(symbols_of(t2.subrange(0, i + 1)) =~= symbols_of(t2.subrange(0, i as int)).push(
                t2[i as int].symbol,
            ));
            i = i + 1;
        }
        assert(t2.subrange(0, i as int) =~= t2);
        self.statement(syms, line)
    }
}

/// The innermost block still open, in the order in which a blank line
/// would close them: an if, else a loop, else a function.
pub open spec fn open_block(st: Asm) -> Option<usize> {
    if st.ifs.len() > 0 {
        Some(st.ifs.last())
    } else if st.loops.len() > 0 {
        Some(st.loops.last())
    } else if st.funcs.len() > 0 {
        Some(st.funcs.last())
    } else {
        None
    }
}

/// The program of the final state; a block left open is an error.
pub open spec fn finish(st: Asm) -> Result<ProgramV, ErrorV> {
    match open_block(st) {
        Some(k) => Err(ErrorV::UnterminatedBlock(st.commands[k as int].line)),
        None => Ok(ProgramV { commands: st.commands, functions: st.functions }),
    }
}

/// Assembles the lexed lines into a program.
pub fn assemble_lines(lines: Vec<Vec<Token>>) -> (r: Result<Program, ParseError>)
    ensures
        match assemble(lines_view(lines@)) {
            Ok(st) => match finish(st) {
                Ok(pv) => r matches Ok(p) && p@ == pv,
                Err(e) => r matches Err(x) && x@ == e,
            },
            Err(e) => r matches Err(x) && x@ == e,
        },
        r matches Ok(p) ==> forall|i: int|
            0 <= i < p@.commands.len() ==> !unresolved(#[trigger] p@.commands[i].cmd),
{
    let ghost all = lines_view(lines@);
    let mut rows = lines;
    let mut state = Assembly::new();
    let mut i: usize = 0;
    let n = rows.len();
    while i < n
        invariant
            n == rows@.len(),
            i <= n,
            forall|j: int| i <= j < n ==> tokens_view((#[trigger] rows@[j])@) == all[j],
            all.len() == n,
            all == lines_view(lines@),
            assemble(all.subrange(0, i as int)) == Ok::<Asm, ErrorV>(state@),
            well_formed(state@),
        decreases n - i,
    {
        let mut raw: Vec<Token> = Vec::new();
        rows.set_and_swap(i, &mut raw);
        assert(tokens_view(raw@) == all[i as int]);
        assert(all.subrange(0, i + 1).drop_last() =~= all.subrange(0, i as int));
        let ghost before = state@;
        assert(assemble(all.subrange(0, i + 1)) == step(before, all[i as int]));
        match state.step(raw) {
            Ok(()) => {},
            Err(e) => {
                assert(assemble(all.subrange(0, i + 1)) == Err::<Asm, ErrorV>(e@));
                proof {
                    lemma_assemble_stops(all, i as int + 1);
                }
                return Err(e);
            },
        }
        i = i + 1;
    }
    assert(all.subrange(0, i as int) =~= all);
    proof {
        lemma_assemble_sound(all);
    }
    if state.if_starts.len() > 0 {
        let k = state.if_starts[state.if_starts.len() - 1];
        return Err(ParseError::UnterminatedBlock(state.commands[k].line));
    }
    if state.loop_starts.len() > 0 {
        let k = state.loop_starts[state.loop_starts.len() - 1];
        return Err(ParseError::UnterminatedBlock(state.commands[k].line));
    }
    if state.func_starts.len() > 0 {
        let k = state.func_starts[state.func_starts.len() - 1];
        return Err(ParseError::UnterminatedBlock(state.commands[k].line));
    }
    let Assembly { commands, functions, .. } = state;
    Ok(Program { commands, functions })
}

/// Once a line fails, the whole list fails with that error.
pub proof fn lemma_assemble_stops(lines: Seq<Seq<TokenV>>, k: int)
    requires
        0 < k <= lines.len(),
        assemble(lines.subrange(0, k)) is Err,
    ensures
        assemble(lines) == assemble(lines.subrange(0, k)),
    decreases lines.len() - k,
{
    if k < lines.len() {
        assert(lines.subrange(0, k + 1).drop_last() =~= lines.subrange(0, k));
        lemma_assemble_stops(lines, k + 1);
    } else {
        assert(lines.subrange(0, k) =~= lines);
    }
}

} // verus!
