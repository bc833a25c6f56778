//! Lexical symbols and tokens.

use vstd::prelude::*;

verus! {

/// One lexical unit of a source line.
#[derive(Clone, Debug, PartialEq)]
pub enum Symbol {
    Is,
    Aint,
    GreaterThan,
    GreaterThanOrEqual,
    LessThan,
    Add,
    Subtract,
    Times,
    And,
    If,
    Else,
    While,
    Until,
    Next,
    Continue,
    Return,
    Build,
    Up,
    Knock,
    Down,
    Takes,
    Put,
    Where,
    Say,
    Variable(String),
    /// The digits as written; they are read as a number only when an
    /// expression is built.
    Integer(String),
    String(String),
    /// A run of bare words, not yet given a value.
    Words(Vec<String>),
    Taking { target: String, args: Vec<String> },
    Comma,
    Comment,
    Newline,
}

/// Mathematical value of a [`Symbol`].
pub ghost enum SymbolV {
    Is,
    Aint,
    GreaterThan,
    GreaterThanOrEqual,
    LessThan,
    Add,
    Subtract,
    Times,
    And,
    If,
    Else,
    While,
    Until,
    Next,
    Continue,
    Return,
    Build,
    Up,
    Knock,
    Down,
    Takes,
    Put,
    Where,
    Say,
    Variable(Seq<char>),
    Integer(Seq<char>),
    Str(Seq<char>),
    Words(Seq<Seq<char>>),
    Taking(Seq<char>, Seq<Seq<char>>),
    Comma,
    Comment,
    Newline,
}

impl View for Symbol {
    type V = SymbolV;

    open spec fn view(&self) -> SymbolV {
        match self {
            Symbol::Is => SymbolV::Is,
            Symbol::Aint => SymbolV::Aint,
            Symbol::GreaterThan => SymbolV::GreaterThan,
            Symbol::GreaterThanOrEqual => SymbolV::GreaterThanOrEqual,
            Symbol::LessThan => SymbolV::LessThan,
            Symbol::Add => SymbolV::Add,
            Symbol::Subtract => SymbolV::Subtract,
            Symbol::Times => SymbolV::Times,
            Symbol::And => SymbolV::And,
            Symbol::If => SymbolV::If,
            Symbol::Else => SymbolV::Else,
            Symbol::While => SymbolV::While,
            Symbol::Until => SymbolV::Until,
            Symbol::Next => SymbolV::Next,
            Symbol::Continue => SymbolV::Continue,
            Symbol::Return => SymbolV::Return,
            Symbol::Build => SymbolV::Build,
            Symbol::Up => SymbolV::Up,
            Symbol::Knock => SymbolV::Knock,
            Symbol::Down => SymbolV::Down,
            Symbol::Takes => SymbolV::Takes,
            Symbol::Put => SymbolV::Put,
            Symbol::Where => SymbolV::Where,
            Symbol::Say => SymbolV::Say,
            Symbol::Variable(v) => SymbolV::Variable(v@),
            Symbol::Integer(v) => SymbolV::Integer(v@),
            Symbol::String(v) => SymbolV::Str(v@),
            Symbol::Words(w) => SymbolV::Words(w.deep_view()),
            Symbol::Taking { target, args } => SymbolV::Taking(target@, args.deep_view()),
            Symbol::Comma => SymbolV::Comma,
            Symbol::Comment => SymbolV::Comment,
            Symbol::Newline => SymbolV::Newline,
        }
    }
}

/// A symbol with the 1-based source line it was read from.
#[derive(Clone, Debug, PartialEq)]
pub struct Token {
    pub line: usize,
    pub symbol: Symbol,
}

pub ghost struct TokenV {
    pub line: usize,
    pub symbol: SymbolV,
}

impl View for Token {
    type V = TokenV;

    open spec fn view(&self) -> TokenV {
        TokenV { line: self.line, symbol: self.symbol@ }
    }
}

pub open spec fn symbols_view(v: Seq<Symbol>) -> Seq<SymbolV> {
    v.map_values(|x: Symbol| x@)
}

pub open spec fn tokens_view(v: Seq<Token>) -> Seq<TokenV> {
    v.map_values(|x: Token| x@)
}

pub open spec fn lines_view(v: Seq<Vec<Token>>) -> Seq<Seq<TokenV>> {
    v.map_values(|x: Vec<Token>| tokens_view(x@))
}

} // verus!
