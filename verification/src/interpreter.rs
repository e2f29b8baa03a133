//! The front end around the scanner: hands a source string through one
//! scanning pass. Reading source text from disk is the driver's concern, not
//! this crate's; the interpreter works on an in-memory string.

use vstd::prelude::*;

use crate::model::{spec_scan, tokens_view};
use crate::scanner::Scanner;
use crate::token::Token;

verus! {

broadcast use vstd::seq_lib::group_seq_lib_default;

/// Runs sources through the scanner. It keeps no state between runs.
pub struct Interpreter {}

impl Interpreter {
    /// A fresh interpreter.
    pub fn new() -> Interpreter {
        Interpreter {  }
    }

    /// Scans a whole source string and returns its tokens, exactly the token
    /// sequence of the scanning model. Lexical faults are non-fatal, so the
    /// result is always `Ok`; callers that need the collected diagnostics use
    /// a [`Scanner`] directly.
    pub fn scan(&mut self, source_code: &str) -> (r: Result<Vec<Token>, &'static str>)
        requires
            source_code@.len() < usize::MAX,
        ensures
            r is Ok,
            tokens_view(r->Ok_0@) == spec_scan(source_code@).tokens,
    {
        let mut scanner = Scanner::new(source_code.to_owned());
        let r = scanner.scan_tokens();
        proof {
            assert(tokens_view(Seq::<Token>::empty()) =~= Seq::<crate::token::SpecToken>::empty());
        }
        r
    }
}

} // verus!
