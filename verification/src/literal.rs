use vstd::prelude::*;

verus! {

/// The value a token carries, distinct from its raw lexeme: the unquoted text
/// of a string literal, the exact decimal spelling of a number, or nothing.
///
/// A numeric literal keeps its matched source span (digits, optionally a dot
/// followed by more digits). Converting that span to a machine floating-point
/// value is the consumer's concern; the scanner guarantees the span's shape,
/// so such a conversion cannot fail.
#[derive(Clone, Debug, PartialEq, Eq)]
pub enum Literal {
    StringLiteral(String),
    NumberLiteral(String),
    Null,
}

/// The mathematical view of a [`Literal`]: the carried text as a sequence of
/// characters, or nothing.
pub ghost enum SpecLiteral {
    Str(Seq<char>),
    Num(Seq<char>),
    Null,
}

impl View for Literal {
    type V = SpecLiteral;

    open spec fn view(&self) -> SpecLiteral {
        match self {
            Literal::StringLiteral(s) => SpecLiteral::Str(s@),
            Literal::NumberLiteral(n) => SpecLiteral::Num(n@),
            Literal::Null => SpecLiteral::Null,
        }
    }
}

} // verus!
