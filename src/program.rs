//! Expressions, commands, the parsed program, and parse errors.

use vstd::prelude::*;
use crate::symbols::{symbols_view, Symbol, SymbolV};

verus! {

/// A value-producing expression tree.
#[derive(Debug, PartialEq)]
pub enum Expression {
    Integer(i128),
    String(String),
    Variable(String),
    Call(String, Vec<Expression>),
    Is(Box<Expression>, Box<Expression>),
    Aint(Box<Expression>, Box<Expression>),
    GreaterThanOrEqual(Box<Expression>, Box<Expression>),
    GreaterThan(Box<Expression>, Box<Expression>),
    LessThan(Box<Expression>, Box<Expression>),
    Add(Box<Expression>, Box<Expression>),
    Subtract(Box<Expression>, Box<Expression>),
    Times(Box<Expression>, Box<Expression>),
    And(Box<Expression>, Box<Expression>),
}

/// The binary operators, as the expression model names them.
pub ghost enum BinOp {
    Is,
    Aint,
    GreaterThanOrEqual,
    GreaterThan,
    LessThan,
    Add,
    Subtract,
    Times,
    And,
}

/// Mathematical value of an [`Expression`].
pub ghost enum ExprV {
    Integer(int),
    Str(Seq<char>),
    Variable(Seq<char>),
    Call(Seq<char>, Seq<ExprV>),
    Binary(BinOp, Box<ExprV>, Box<ExprV>),
}

/// The model of an expression tree, built node by node.
pub open spec fn expr_view(e: Expression) -> ExprV
    decreases e,
{
        match e {
            Expression::Integer(n) => ExprV::Integer(n as int),
            Expression::String(s) => ExprV::Str(s@),
            Expression::Variable(v) => ExprV::Variable(v@),
            Expression::Call(name, args) => ExprV::Call(
                name@,
                Seq::new(
                    args.len() as nat,
                    |i: int|
                        if 0 <= i < args.len() {
                            expr_view(args[i])
                        } else {
                            ExprV::Integer(0)
                        },
                ),
            ),
            Expression::Is(a, b) => ExprV::Binary(BinOp::Is, Box::new(expr_view(*a)), Box::new(expr_view(*b))),
            Expression::Aint(a, b) => ExprV::Binary(BinOp::Aint, Box::new(expr_view(*a)), Box::new(expr_view(*b))),
            Expression::GreaterThanOrEqual(a, b) => ExprV::Binary(
                BinOp::GreaterThanOrEqual,
                Box::new(expr_view(*a)),
                Box::new(expr_view(*b)),
            ),
            Expression::GreaterThan(a, b) => ExprV::Binary(
                BinOp::GreaterThan,
                Box::new(expr_view(*a)),
                Box::new(expr_view(*b)),
            ),
            Expression::LessThan(a, b) => ExprV::Binary(
                BinOp::LessThan,
                Box::new(expr_view(*a)),
                Box::new(expr_view(*b)),
            ),
            Expression::Add(a, b) => ExprV::Binary(BinOp::Add, Box::new(expr_view(*a)), Box::new(expr_view(*b))),
            Expression::Subtract(a, b) => ExprV::Binary(
                BinOp::Subtract,
                Box::new(expr_view(*a)),
                Box::new(expr_view(*b)),
            ),
            Expression::Times(a, b) => ExprV::Binary(BinOp::Times, Box::new(expr_view(*a)), Box::new(expr_view(*b))),
            Expression::And(a, b) => ExprV::Binary(BinOp::And, Box::new(expr_view(*a)), Box::new(expr_view(*b))),
        }
}

impl View for Expression {
    type V = ExprV;

    open spec fn view(&self) -> ExprV {
        expr_view(*self)
    }
}


pub open spec fn exprs_view(v: Seq<Expression>) -> Seq<ExprV> {
    v.map_values(|e: Expression| e@)
}

/// A call node's model lists the models of its arguments.
pub proof fn lemma_call_view(name: String, args: Vec<Expression>)
    ensures
        Expression::Call(name, args)@ == ExprV::Call(name@, exprs_view(args@)),
{
    let e = Expression::Call(name, args);
    assert(e@ == expr_view(e));
    if let ExprV::Call(_, v) = expr_view(e) {
        assert(v =~= exprs_view(args@));
    }
}

/// One statement of the flat command list. The `Option` fields are jump
/// targets, filled in when the block that the command opens is closed.
#[derive(Debug, PartialEq)]
pub enum Command {
    Assignment { target: String, value: Expression },
    Increment { target: String },
    Decrement { target: String },
    Say { value: Expression },
    If { expression: Expression, if_end: Option<usize> },
    While { expression: Expression, loop_end: Option<usize> },
    Until { expression: Expression, loop_end: Option<usize> },
    Next { loop_start: usize },
    Continue { loop_start: usize },
    Call { name: String, args: Vec<Expression> },
    Return { return_value: Expression },
    FunctionDeclaration { name: String, args: Vec<String>, func_end: Option<usize> },
    EndIf,
    EndFunction,
}

pub ghost enum CommandV {
    Assignment(Seq<char>, ExprV),
    Increment(Seq<char>),
    Decrement(Seq<char>),
    Say(ExprV),
    If(ExprV, Option<usize>),
    While(ExprV, Option<usize>),
    Until(ExprV, Option<usize>),
    Next(usize),
    Continue(usize),
    Call(Seq<char>, Seq<ExprV>),
    Return(ExprV),
    FunctionDeclaration(Seq<char>, Seq<Seq<char>>, Option<usize>),
    EndIf,
    EndFunction,
}

impl View for Command {
    type V = CommandV;

    open spec fn view(&self) -> CommandV {
        match self {
            Command::Assignment { target, value } => CommandV::Assignment(target@, value@),
            Command::Increment { target } => CommandV::Increment(target@),
            Command::Decrement { target } => CommandV::Decrement(target@),
            Command::Say { value } => CommandV::Say(value@),
            Command::If { expression, if_end } => CommandV::If(expression@, *if_end),
            Command::While { expression, loop_end } => CommandV::While(expression@, *loop_end),
            Command::Until { expression, loop_end } => CommandV::Until(expression@, *loop_end),
            Command::Next { loop_start } => CommandV::Next(*loop_start),
            Command::Continue { loop_start } => CommandV::Continue(*loop_start),
            Command::Call { name, args } => CommandV::Call(name@, exprs_view(args@)),
            Command::Return { return_value } => CommandV::Return(return_value@),
            Command::FunctionDeclaration { name, args, func_end } => CommandV::FunctionDeclaration(
                name@,
                args.deep_view(),
                *func_end,
            ),
            Command::EndIf => CommandV::EndIf,
            Command::EndFunction => CommandV::EndFunction,
        }
    }
}

/// A command with the 1-based source line it came from.
#[derive(Debug, PartialEq)]
pub struct CommandLine {
    pub cmd: Command,
    pub line: usize,
}

pub ghost struct CommandLineV {
    pub cmd: CommandV,
    pub line: usize,
}

impl View for CommandLine {
    type V = CommandLineV;

    open spec fn view(&self) -> CommandLineV {
        CommandLineV { cmd: self.cmd@, line: self.line }
    }
}

/// A declared function: where its declaration stands, and its parameters.
#[derive(Debug, PartialEq)]
pub struct Function {
    pub location: usize,
    pub args: Vec<String>,
}

pub ghost struct FunctionV {
    pub location: usize,
    pub args: Seq<Seq<char>>,
}

impl View for Function {
    type V = FunctionV;

    open spec fn view(&self) -> FunctionV {
        FunctionV { location: self.location, args: self.args.deep_view() }
    }
}

/// The parsed program: the flat command list, and the declared functions
/// by name (each name once).
#[derive(Debug, PartialEq)]
pub struct Program {
    pub commands: Vec<CommandLine>,
    pub functions: Vec<(String, Function)>,
}

pub ghost struct ProgramV {
    pub commands: Seq<CommandLineV>,
    pub functions: Seq<(Seq<char>, FunctionV)>,
}

pub open spec fn commands_view(v: Seq<CommandLine>) -> Seq<CommandLineV> {
    v.map_values(|c: CommandLine| c@)
}

pub open spec fn functions_view(v: Seq<(String, Function)>) -> Seq<(Seq<char>, FunctionV)> {
    v.map_values(|f: (String, Function)| (f.0@, f.1@))
}

impl View for Program {
    type V = ProgramV;

    open spec fn view(&self) -> ProgramV {
        ProgramV {
            commands: commands_view(self.commands@),
            functions: functions_view(self.functions@),
        }
    }
}

/// Why a text could not be parsed; each carries the 1-based line.
#[derive(Debug, PartialEq)]
pub enum ParseError {
    /// Text that no line of the grammar could read.
    UnparsedText(String, usize),
    /// A line with nothing left once filler was stripped.
    NoSymbols(usize),
    /// An `is` statement whose left side is not a variable.
    BadIs(Vec<Symbol>, usize),
    /// A `put ... into` statement whose target is not a variable.
    BadPut(Vec<Symbol>, usize),
    /// A `takes` declaration with a malformed parameter list.
    BadFunctionDeclaration(Vec<Symbol>, usize),
    /// A line that matches no statement shape.
    BadCommandSequence(Vec<Symbol>, usize),
    /// Operands missing, or symbols left over, in an expression.
    UnbalancedExpression(String, usize),
    /// A numeral out of the range of `i128`.
    ParseIntError(String, usize),
    /// A symbol where no rule of the grammar can use it.
    Unimplemented(String, usize),
    /// An if, loop or function still open at the end of the text; the line
    /// is that of the command that opened it.
    UnterminatedBlock(usize),
}

pub ghost enum ErrorV {
    UnparsedText(Seq<char>, usize),
    NoSymbols(usize),
    BadIs(Seq<SymbolV>, usize),
    BadPut(Seq<SymbolV>, usize),
    BadFunctionDeclaration(Seq<SymbolV>, usize),
    BadCommandSequence(Seq<SymbolV>, usize),
    UnbalancedExpression(Seq<char>, usize),
    ParseIntError(Seq<char>, usize),
    Unimplemented(Seq<char>, usize),
    UnterminatedBlock(usize),
}

impl View for ParseError {
    type V = ErrorV;

    open spec fn view(&self) -> ErrorV {
        match self {
            ParseError::UnparsedText(t, l) => ErrorV::UnparsedText(t@, *l),
            ParseError::NoSymbols(l) => ErrorV::NoSymbols(*l),
            ParseError::BadIs(v, l) => ErrorV::BadIs(symbols_view(v@), *l),
            ParseError::BadPut(v, l) => ErrorV::BadPut(symbols_view(v@), *l),
            ParseError::BadFunctionDeclaration(v, l) => ErrorV::BadFunctionDeclaration(
                symbols_view(v@),
                *l,
            ),
            ParseError::BadCommandSequence(v, l) => ErrorV::BadCommandSequence(
                symbols_view(v@),
                *l,
            ),
            ParseError::UnbalancedExpression(t, l) => ErrorV::UnbalancedExpression(t@, *l),
            ParseError::ParseIntError(t, l) => ErrorV::ParseIntError(t@, *l),
            ParseError::Unimplemented(t, l) => ErrorV::Unimplemented(t@, *l),
            ParseError::UnterminatedBlock(l) => ErrorV::UnterminatedBlock(*l),
        }
    }
}

} // verus!
