//! Front end for a lyric-shaped programming language: it turns source text
//! into a flat list of commands with resolved jump targets and a table of
//! declared functions.

pub mod text;
pub mod symbols;
pub mod words;
pub mod lexer;
pub mod program;
pub mod numbers;
pub mod describe;
pub mod expression;
pub mod assembler;
pub mod parser;
pub mod laws;
