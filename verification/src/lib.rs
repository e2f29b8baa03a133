//! Lexical analysis for a small scripting language: a single-pass scanner
//! that turns raw source text into a flat sequence of typed tokens, tracking
//! line numbers for diagnostics. Faults (an unterminated string, an
//! unrecognized character) are collected as structured diagnostics while
//! scanning continues to the end of the input.

pub mod diagnostic;
pub mod interpreter;
pub mod laws;
pub mod literal;
pub mod model;
pub mod scanner;
pub mod token;
pub mod token_type;
