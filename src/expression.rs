//! Literal values of symbols, and the operator-precedence expression parser.

use vstd::prelude::*;
use crate::describe::{describe_symbol, describe_symbols, push_text, symbol_text, symbols_text};
use crate::laws::{alternates, law_expression_alternates};
use crate::numbers::{
    decimal, decimal_value, digits_ok, digits_view, numeral_value, poetic_digits, read_numeral,
};
use crate::program::{exprs_view, lemma_call_view, BinOp, ErrorV, ExprV, Expression, ParseError};
use crate::symbols::{symbols_view, Symbol, SymbolV};
use crate::text::{chars_of, string_of};
use crate::words::push_range;

verus! {

/// Words separated by single spaces.
pub open spec fn joined(ws: Seq<Seq<char>>) -> Seq<char>
    decreases ws.len(),
{
    if ws.len() == 0 {
        seq![]
    } else if ws.len() == 1 {
        ws[0]
    } else {
        joined(ws.drop_last()) + seq![' '] + ws.last()
    }
}

/// The value of a literal symbol. A single word that is `nothing` is 0, a
/// single word that reads as a numeral is that number; otherwise each word
/// is the digit `length mod 10`. A string is itself.
pub open spec fn literal_value(sym: SymbolV, line: usize) -> Result<ExprV, ErrorV> {
    match sym {
        SymbolV::Words(ws) => if ws.len() == 1 && ws[0] == "nothing"@ {
            Ok(ExprV::Integer(0))
        } else if ws.len() == 1 && numeral_value(ws[0]) is Some {
            Ok(ExprV::Integer(numeral_value(ws[0])->0))
        } else if decimal(poetic_digits(ws)) <= i128::MAX {
            Ok(ExprV::Integer(decimal(poetic_digits(ws))))
        } else {
            Err(ErrorV::ParseIntError(joined(ws), line))
        },
        SymbolV::Str(p) => Ok(ExprV::Str(p)),
        _ => Err(ErrorV::Unimplemented("Evaluate: '"@ + symbol_text(sym) + "'"@, line)),
    }
}

pub open spec fn variables(names: Seq<Seq<char>>) -> Seq<ExprV> {
    names.map_values(|n: Seq<char>| ExprV::Variable(n))
}

/// The expression that a single operand symbol stands for.
pub open spec fn operand(sym: SymbolV, line: usize) -> Result<ExprV, ErrorV> {
    match sym {
        SymbolV::Words(_) => literal_value(sym, line),
        SymbolV::Variable(n) => Ok(ExprV::Variable(n)),
        SymbolV::Str(p) => Ok(ExprV::Str(p)),
        SymbolV::Integer(t) => match numeral_value(t) {
            Some(v) => Ok(ExprV::Integer(v)),
            None => Err(ErrorV::ParseIntError(t, line)),
        },
        SymbolV::Taking(target, args) => Ok(ExprV::Call(target, variables(args))),
        _ => Err(ErrorV::Unimplemented("Single symbol to expression: "@ + symbol_text(sym), line)),
    }
}

/// Binding strength of a binary operator: `and` binds loosest, then the
/// comparisons, then `+` and `-`, then `*`.
pub open spec fn precedence(sym: SymbolV) -> Option<nat> {
    match sym {
        SymbolV::And => Some(0),
        SymbolV::Is | SymbolV::Aint | SymbolV::GreaterThanOrEqual | SymbolV::GreaterThan
        | SymbolV::LessThan => Some(1),
        SymbolV::Add | SymbolV::Subtract => Some(2),
        SymbolV::Times => Some(3),
        _ => None,
    }
}

pub open spec fn operator(sym: SymbolV) -> BinOp {
    match sym {
        SymbolV::Is => BinOp::Is,
        SymbolV::Aint => BinOp::Aint,
        SymbolV::GreaterThanOrEqual => BinOp::GreaterThanOrEqual,
        SymbolV::GreaterThan => BinOp::GreaterThan,
        SymbolV::LessThan => BinOp::LessThan,
        SymbolV::Add => BinOp::Add,
        SymbolV::Subtract => BinOp::Subtract,
        SymbolV::Times => BinOp::Times,
        _ => BinOp::And,
    }
}

pub open spec fn binding(sym: SymbolV) -> nat {
    match precedence(sym) {
        Some(p) => p,
        None => 0,
    }
}

/// The position of the first operator at or after `i`.
pub open spec fn next_operator(items: Seq<SymbolV>, i: int) -> Option<int>
    decreases items.len() - i,
{
    if i < 0 || i >= items.len() {
        None
    } else if precedence(items[i]) is Some {
        Some(i)
    } else {
        next_operator(items, i + 1)
    }
}

pub open spec fn unbalanced(items: Seq<SymbolV>, line: usize) -> ErrorV {
    ErrorV::UnbalancedExpression(symbols_text(items), line)
}

/// Folds operators of binding at least `min` onto `lhs`, the operand at
/// `index`; returns the tree and the position of the last operand used.
/// The operator must stand directly after the operand; a symbol between
/// them is an unbalanced expression. Each fold moves past at least one
/// operator; the bound on `k` states it.
pub open spec fn climb(
    items: Seq<SymbolV>,
    index: int,
    lhs: ExprV,
    min: nat,
    line: usize,
) -> Result<(ExprV, int), ErrorV>
    decreases items.len() - index, 0nat,
{
    match next_operator(items, index) {
        Some(j) => if j != index + 1 {
            Err(unbalanced(items, line))
        } else if index <= j < items.len() && binding(items[j]) >= min {
            if j + 1 >= items.len() {
                Err(unbalanced(items, line))
            } else {
                match operand(items[j + 1], line) {
                    Err(e) => Err(e),
                    Ok(rhs) => match tighter(items, j + 1, rhs, binding(items[j]), line) {
                        Err(e) => Err(e),
                        Ok((rhs2, k)) => if index < k <= items.len() {
                            climb(
                                items,
                                k,
                                ExprV::Binary(operator(items[j]), Box::new(lhs), Box::new(rhs2)),
                                min,
                                line,
                            )
                        } else {
                            Err(unbalanced(items, line))
                        },
                    },
                }
            }
        } else {
            Ok((lhs, index))
        },
        None => Ok((lhs, index)),
    }
}

/// Binds to `rhs`, the operand at `index`, every following operator that
/// binds tighter than `p`.
pub open spec fn tighter(
    items: Seq<SymbolV>,
    index: int,
    rhs: ExprV,
    p: nat,
    line: usize,
) -> Result<(ExprV, int), ErrorV>
    decreases items.len() - index, 1nat,
{
    match next_operator(items, index) {
        Some(l) => if l != index + 1 {
            Err(unbalanced(items, line))
        } else if index <= l < items.len() && binding(items[l]) > p {
            match climb(items, index, rhs, binding(items[l]), line) {
                Err(e) => Err(e),
                Ok((r2, k)) => if index < k <= items.len() {
                    tighter(items, k, r2, p, line)
                } else {
                    Err(unbalanced(items, line))
                },
            }
        } else {
            Ok((rhs, index))
        },
        None => Ok((rhs, index)),
    }
}

/// The expression of a whole operand list: it must be non-empty and every
/// symbol must be used.
pub open spec fn expression_of(items: Seq<SymbolV>, line: usize) -> Result<ExprV, ErrorV> {
    if items.len() == 0 {
        Err(unbalanced(items, line))
    } else {
        match operand(items[0], line) {
            Err(e) => Err(e),
            Ok(lhs) => match climb(items, 0, lhs, 0, line) {
                Err(e) => Err(e),
                Ok((e, k)) => if k == items.len() - 1 {
                    Ok(e)
                } else {
                    Err(unbalanced(items, line))
                },
            },
        }
    }
}

pub open spec fn expr_result(r: Result<Expression, ParseError>) -> Result<ExprV, ErrorV> {
    match r {
        Ok(e) => Ok(e@),
        Err(e) => Err(e@),
    }
}

pub open spec fn climb_result(r: Result<(Expression, usize), ParseError>, lo: usize) -> Result<
    (ExprV, int),
    ErrorV,
> {
    match r {
        Ok((e, k)) => Ok((e@, k - lo)),
        Err(e) => Err(e@),
    }
}


/// Whether the characters are exactly the text `t`.
pub fn same_text(a: &Vec<char>, t: &str) -> (r: bool)
    ensures
        r == (a@ == t@),
{
    let n = t.unicode_len();
    if a.len() != n {
        return false;
    }
    let mut i: usize = 0;
    while i < n
        invariant
            n == t@.len(),
            a@.len() == n,
            i <= n,
            forall|j: int| 0 <= j < i ==> a@[j] == t@[j],
        decreases n - i,
    {
        if a[i] != t.get_char(i) {
            return false;
        }
        i = i + 1;
    }
    assert(a@ =~= t@);
    true
}

fn join_words(ws: &Vec<String>) -> (r: String)
    ensures
        r@ == joined(ws.deep_view()),
{
    let ghost all = ws.deep_view();
    let mut out: Vec<char> = Vec::new();
    let mut i: usize = 0;
    while i < ws.len()
        invariant
            i <= ws@.len(),
            all == ws.deep_view(),
            out@ == joined(all.subrange(0, i as int)),
        decreases ws@.len() - i,
    {
        if i > 0 {
            out.push(' ');
        }
        let w = chars_of(ws[i].as_str());
        push_range(&mut out, &w, 0, w.len());
        assert(w@.subrange(0, w@.len() as int) =~= w@);
        assert(all.subrange(0, i + 1).drop_last() =~= all.subrange(0, i as int));
        assert(out@ =~= joined(all.subrange(0, i + 1)));
        i = i + 1;
    }
    assert(all.subrange(0, i as int) =~= all);
    string_of(&out)
}

/// The value of a literal symbol (see [`literal_value`]).
pub fn evaluate(value: &Symbol, line: usize) -> (r: Result<Expression, ParseError>)
    ensures
        expr_result(r) == literal_value(value@, line),
{
    match value {
        Symbol::Words(words) => {
            let ghost ws = words.deep_view();
            if words.len() == 1 {
                let w = chars_of(words[0].as_str());
                if same_text(&w, "nothing") {
                    return Ok(Expression::Integer(0));
                }
                if let Some(v) = read_numeral(&w) {
                    return Ok(Expression::Integer(v));
                }
            }
            let mut ds: Vec<u8> = Vec::new();
            let mut i: usize = 0;
            while i < words.len()
                invariant
                    i <= words@.len(),
                    ws == words.deep_view(),
                    digits_view(ds@) == poetic_digits(ws.subrange(0, i as int)),
                    digits_ok(digits_view(ds@)),
                decreases words@.len() - i,
            {
                let n = chars_of(words[i].as_str()).len();
                let d = (n % 10) as u8;
                let ghost before = digits_view(ds@);
                ds.push(d);
                assert(digits_view(ds@) =~= before.push(d as int));
                assert(poetic_digits(ws.subrange(0, i + 1)) =~= poetic_digits(
                    ws.subrange(0, i as int),
                ).push(d as int));
                i = i + 1;
            }
            assert(ws.subrange(0, i as int) =~= ws);
            match decimal_value(&ds) {
                Some(m) => {
                    if m <= 170141183460469231731687303715884105727 {
                        Ok(Expression::Integer(m as i128))
                    } else {
                        Err(ParseError::ParseIntError(join_words(words), line))
                    }
                },
                None => Err(ParseError::ParseIntError(join_words(words), line)),
            }
        },
        Symbol::String(phrase) => Ok(Expression::String(phrase.clone())),
        _ => {
            let mut t: Vec<char> = Vec::new();
            push_text(&mut t, "Evaluate: '");
            let d = describe_symbol(value);
            push_range(&mut t, &d, 0, d.len());
            push_text(&mut t, "'");
            assert(d@.subrange(0, d@.len() as int) =~= d@);
            assert(t@ =~= "Evaluate: '"@ + symbol_text(value@) + "'"@);
            Err(ParseError::Unimplemented(string_of(&t), line))
        },
    }
}

pub(crate) fn variable_list(names: &Vec<String>) -> (r: Vec<Expression>)
    ensures
        exprs_view(r@) == variables(names.deep_view()),
{
    let ghost all = names.deep_view();
    let mut out: Vec<Expression> = Vec::new();
    let mut i: usize = 0;
    while i < names.len()
        invariant
            i <= names@.len(),
            all == names.deep_view(),
            exprs_view(out@) == variables(all.subrange(0, i as int)),
        decreases names@.len() - i,
    {
        let ghost before = exprs_view(out@);
        out.push(Expression::Variable(names[i].clone()));
        assert(exprs_view(out@) =~= before.push(ExprV::Variable(all[i as int])));
        assert(variables(all.subrange(0, i + 1)) =~= variables(all.subrange(0, i as int)).push(
            ExprV::Variable(all[i as int]),
        ));
        i = i + 1;
    }
    assert(all.subrange(0, i as int) =~= all);
    out
}

/// The expression that a single operand symbol stands for.
pub fn single_symbol_to_expression(sym: &Symbol, line: usize) -> (r: Result<
    Expression,
    ParseError,
>)
    ensures
        expr_result(r) == operand(sym@, line),
{
    match sym {
        Symbol::Words(_) => evaluate(sym, line),
        Symbol::Variable(name) => Ok(Expression::Variable(name.clone())),
        Symbol::String(phrase) => Ok(Expression::String(phrase.clone())),
        Symbol::Integer(val) => {
            let t = chars_of(val.as_str());
            match read_numeral(&t) {
                Some(v) => Ok(Expression::Integer(v)),
                None => Err(ParseError::ParseIntError(val.clone(), line)),
            }
        },
        Symbol::Taking { target, args } => {
            let name = target.clone();
            let v = variable_list(args);
            proof {
                lemma_call_view(name, v);
            }
            Ok(Expression::Call(name, v))
        },
        _ => {
            let mut t: Vec<char> = Vec::new();
            push_text(&mut t, "Single symbol to expression: ");
            let d = describe_symbol(sym);
            push_range(&mut t, &d, 0, d.len());
            assert(d@.subrange(0, d@.len() as int) =~= d@);
            assert(t@ =~= "Single symbol to expression: "@ + symbol_text(sym@));
            Err(ParseError::Unimplemented(string_of(&t), line))
        },
    }
}

fn binding_of(sym: &Symbol) -> (r: Option<u8>)
    ensures
        r matches Some(p) ==> precedence(sym@) == Some(p as nat),
        r is None ==> precedence(sym@) is None,
{
    match sym {
        Symbol::And => Some(0),
        Symbol::Is | Symbol::Aint | Symbol::GreaterThanOrEqual | Symbol::GreaterThan
        | Symbol::LessThan => Some(1),
        Symbol::Add | Symbol::Subtract => Some(2),
        Symbol::Times => Some(3),
        _ => None,
    }
}

fn combine(op: &Symbol, lhs: Expression, rhs: Expression) -> (r: Expression)
    ensures
        r@ == ExprV::Binary(operator(op@), Box::new(lhs@), Box::new(rhs@)),
{
    match op {
        Symbol::Is => Expression::Is(Box::new(lhs), Box::new(rhs)),
        Symbol::Aint => Expression::Aint(Box::new(lhs), Box::new(rhs)),
        Symbol::GreaterThanOrEqual => Expression::GreaterThanOrEqual(Box::new(lhs), Box::new(rhs)),
        Symbol::GreaterThan => Expression::GreaterThan(Box::new(lhs), Box::new(rhs)),
        Symbol::LessThan => Expression::LessThan(Box::new(lhs), Box::new(rhs)),
        Symbol::Add => Expression::Add(Box::new(lhs), Box::new(rhs)),
        Symbol::Subtract => Expression::Subtract(Box::new(lhs), Box::new(rhs)),
        Symbol::Times => Expression::Times(Box::new(lhs), Box::new(rhs)),
        _ => Expression::And(Box::new(lhs), Box::new(rhs)),
    }
}

pub open spec fn window(items: Seq<Symbol>, lo: int, hi: int) -> Seq<SymbolV> {
    symbols_view(items).subrange(lo, hi)
}

fn next_op(items: &Vec<Symbol>, lo: usize, hi: usize, i: usize) -> (r: Option<usize>)
    requires
        lo <= i <= hi <= items@.len(),
    ensures
        r matches Some(j) ==> i <= j < hi && next_operator(window(items@, lo as int, hi as int), i - lo)
            == Some(j - lo) && precedence(items@[j as int]@) is Some,
        r is None ==> next_operator(window(items@, lo as int, hi as int), i - lo) is None,
{
    let ghost w = window(items@, lo as int, hi as int);
    let mut k = i;
    while k < hi
        invariant
            lo <= i <= k <= hi <= items@.len(),
            w == window(items@, lo as int, hi as int),
            next_operator(w, k - lo) == next_operator(w, i - lo),
        decreases hi - k,
    {
        assert(w[k - lo] == items@[k as int]@);
        if binding_of(&items[k]).is_some() {
            return Some(k);
        }
        k = k + 1;
    }
    None
}

fn unbalanced_error(items: &Vec<Symbol>, lo: usize, hi: usize, line: usize) -> (r: ParseError)
    requires
        lo <= hi <= items@.len(),
    ensures
        r@ == unbalanced(window(items@, lo as int, hi as int), line),
{
    let t = describe_symbols(items, lo, hi);
    ParseError::UnbalancedExpression(string_of(&t), line)
}


fn climb_here(
    items: &Vec<Symbol>,
    lo: usize,
    hi: usize,
    index: usize,
    lhs: Expression,
    min: u8,
    line: usize,
) -> (r: Result<(Expression, usize), ParseError>)
    requires
        lo <= index < hi <= items@.len(),
    ensures
        climb_result(r, lo) == climb(
            window(items@, lo as int, hi as int),
            index - lo,
            lhs@,
            min as nat,
            line,
        ),
        r matches Ok((_, k)) ==> index <= k < hi,
    decreases hi - index, 0nat,
{
    let ghost w = window(items@, lo as int, hi as int);
    match next_op(items, lo, hi, index) {
        Some(j) => {
            if j != index + 1 {
                return Err(unbalanced_error(items, lo, hi, line));
            }
            assert(w[j - lo] == items@[j as int]@);
            let b = binding_of(&items[j]).unwrap();
            if b >= min {
                if j + 1 >= hi {
                    return Err(unbalanced_error(items, lo, hi, line));
                }
                assert(w[j + 1 - lo] == items@[j + 1]@);
                let rhs = match single_symbol_to_expression(&items[j + 1], line) {
                    Ok(e) => e,
                    Err(e) => {
                        return Err(e);
                    },
                };
                match tighter_here(items, lo, hi, j + 1, rhs, b, line) {
                    Err(e) => Err(e),
                    Ok((rhs2, k)) => {
                        let folded = combine(&items[j], lhs, rhs2);
                        climb_here(items, lo, hi, k, folded, min, line)
                    },
                }
            } else {
                Ok((lhs, index))
            }
        },
        None => Ok((lhs, index)),
    }
}

fn tighter_here(
    items: &Vec<Symbol>,
    lo: usize,
    hi: usize,
    index: usize,
    rhs: Expression,
    p: u8,
    line: usize,
) -> (r: Result<(Expression, usize), ParseError>)
    requires
        lo <= index < hi <= items@.len(),
    ensures
        climb_result(r, lo) == tighter(
            window(items@, lo as int, hi as int),
            index - lo,
            rhs@,
            p as nat,
            line,
        ),
        r matches Ok((_, k)) ==> index <= k < hi,
    decreases hi - index, 1nat,
{
    let ghost w = window(items@, lo as int, hi as int);
    match next_op(items, lo, hi, index) {
        Some(l) => {
            if l != index + 1 {
                return Err(unbalanced_error(items, lo, hi, line));
            }
            assert(w[l - lo] == items@[l as int]@);
            let b = binding_of(&items[l]).unwrap();
            if b > p {
                match climb_here(items, lo, hi, index, rhs, b, line) {
                    Err(e) => Err(e),
                    Ok((r2, k)) => if index < k {
                        tighter_here(items, lo, hi, k, r2, p, line)
                    } else {
                        Err(unbalanced_error(items, lo, hi, line))
                    },
                }
            } else {
                Ok((rhs, index))
            }
        },
        None => Ok((rhs, index)),
    }
}

/// Parses the operand symbols `items[lo..hi]` into one expression.
pub fn parse_expression(items: &Vec<Symbol>, lo: usize, hi: usize, line: usize) -> (r: Result<
    Expression,
    ParseError,
>)
    requires
        lo <= hi <= items@.len(),
    ensures
        expr_result(r) == expression_of(window(items@, lo as int, hi as int), line),
        r is Ok ==> (hi - lo) % 2 == 1 && alternates(
            window(items@, lo as int, hi as int),
            0,
            hi - lo - 1,
        ),
{
    let ghost w = window(items@, lo as int, hi as int);
    if lo == hi {
        return Err(unbalanced_error(items, lo, hi, line));
    }
    assert(w[0] == items@[lo as int]@);
    let lhs = match single_symbol_to_expression(&items[lo], line) {
        Ok(e) => e,
        Err(e) => {
            return Err(e);
        },
    };
    match climb_here(items, lo, hi, lo, lhs, 0, line) {
        Err(e) => Err(e),
        Ok((e, k)) => if k == hi - 1 {
            proof {
                law_expression_alternates(w, line);
            }
            Ok(e)
        } else {
            Err(unbalanced_error(items, lo, hi, line))
        },
    }
}

} // verus!
