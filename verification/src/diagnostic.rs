use vstd::prelude::*;

verus! {

/// A structured report of a non-fatal lexical fault. The scanner collects
/// diagnostics and continues to the end of the input, so callers receive
/// every valid token together with every fault, each tagged with the line it
/// arose on.
#[derive(Clone, Copy, PartialEq, Eq, Structural, Debug)]
pub enum Diagnostic {
    /// A `"` was opened but never closed before the end of the input; the
    /// line is that of the opening quote.
    UnterminatedString { line: usize },
    /// A character matching none of the recognized classes; an `Undefined`
    /// token is still emitted for it.
    UnrecognizedCharacter { ch: char, line: usize },
}

} // verus!
