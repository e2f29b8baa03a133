use vstd::prelude::*;

verus! {

/// The closed set of lexical categories a token can belong to: single-character
/// punctuation, one- and two-character operators, the three literal classes,
/// the reserved words, and a sentinel for input the scanner does not recognize.
/// No end-of-file marker is emitted.
#[derive(Clone, Copy, PartialEq, Eq, Structural, Debug)]
pub enum TokenType {
    LeftParen,
    RightParen,
    LeftBrace,
    RightBrace,
    Comma,
    Dot,
    Minus,
    Plus,
    Semicolon,
    Star,
    Slash,
    Bang,
    BangEqual,
    Equal,
    EqualEqual,
    Less,
    LessEqual,
    Greater,
    GreaterEqual,
    String,
    Number,
    Identifier,
    And,
    Class,
    Else,
    False,
    For,
    Fun,
    If,
    Nil,
    Or,
    Print,
    Return,
    Super,
    This,
    True,
    Var,
    While,
    Undefined,
}

} // verus!
