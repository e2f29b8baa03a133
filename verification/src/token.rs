use vstd::prelude::*;

use crate::literal::{Literal, SpecLiteral};
use crate::token_type::TokenType;

verus! {

/// One classified, positioned unit of lexical meaning: its category, the exact
/// source text it was recognized from, the value it carries (if any), and the
/// 1-based line it was emitted on. A token is created once, when a lexical
/// unit has been fully recognized, and never changed afterwards.
#[derive(Clone, Debug)]
pub struct Token {
    pub token_type: TokenType,
    pub lexeme: String,
    pub literal: Option<Literal>,
    pub line: usize,
}

/// The mathematical view of a [`Token`]: the same record over sequences of
/// characters and unbounded integers. An absent literal and an explicit
/// [`Literal::Null`] mean the same thing, so both map to [`SpecLiteral::Null`].
#[verifier::ext_equal]
pub ghost struct SpecToken {
    pub token_type: TokenType,
    pub lexeme: Seq<char>,
    pub literal: SpecLiteral,
    pub line: int,
}

/// What a token's optional literal denotes: absent means no carried value.
pub open spec fn opt_literal_view(literal: Option<Literal>) -> SpecLiteral {
    match literal {
        Option::Some(l) => l@,
        Option::None => SpecLiteral::Null,
    }
}

impl View for Token {
    type V = SpecToken;

    open spec fn view(&self) -> SpecToken {
        SpecToken {
            token_type: self.token_type,
            lexeme: self.lexeme@,
            literal: opt_literal_view(self.literal),
            line: self.line as int,
        }
    }
}

impl Token {
    /// Builds a token from its parts, copying the lexeme out of the source.
    pub fn new(token_type: TokenType, lexeme: &str, literal: Option<Literal>, line: usize) -> (t: Token)
        ensures
            t@ == (SpecToken {
                token_type,
                lexeme: lexeme@,
                literal: opt_literal_view(literal),
                line: line as int,
            }),
    {
        Token { token_type, lexeme: lexeme.to_owned(), literal, line }
    }
}

} // verus!
