//! The mathematical model of scanning: a recursive specification that maps a
//! source character sequence to the token sequence and diagnostics the
//! scanner must produce. The executable [`crate::scanner::Scanner`] is proved
//! to agree with this model exactly.

use vstd::prelude::*;

use crate::diagnostic::Diagnostic;
use crate::literal::SpecLiteral;
use crate::token::{SpecToken, Token};
use crate::token_type::TokenType;

verus! {

/// The whitespace characters the scanner skips; a newline also advances the
/// line counter.
pub open spec fn is_space_char(c: char) -> bool {
    c == ' ' || c == '\t' || c == '\r' || c == '\n'
}

/// The decimal digits, which begin and continue a number.
pub open spec fn is_digit_char(c: char) -> bool {
    '0' as u32 <= c as u32 && c as u32 <= '9' as u32
}

/// The letters, which begin an identifier or reserved word.
pub open spec fn is_alpha_char(c: char) -> bool {
    ('a' as u32 <= c as u32 && c as u32 <= 'z' as u32)
    || ('A' as u32 <= c as u32 && c as u32 <= 'Z' as u32)
}

/// The characters that continue an identifier or reserved word.
pub open spec fn is_alnum_char(c: char) -> bool {
    is_digit_char(c) || is_alpha_char(c)
}

/// The recognized single-character punctuation.
pub open spec fn is_punct_char(c: char) -> bool {
    c == '(' || c == ')' || c == '{' || c == '}' || c == ',' || c == '.'
    || c == '-' || c == '+' || c == ';' || c == '*' || c == '/'
}

/// The token type of one recognized punctuation character.
pub open spec fn punct_token_type(c: char) -> TokenType {
    if c == '(' { TokenType::LeftParen }
    else if c == ')' { TokenType::RightParen }
    else if c == '{' { TokenType::LeftBrace }
    else if c == '}' { TokenType::RightBrace }
    else if c == ',' { TokenType::Comma }
    else if c == '.' { TokenType::Dot }
    else if c == '-' { TokenType::Minus }
    else if c == '+' { TokenType::Plus }
    else if c == ';' { TokenType::Semicolon }
    else if c == '*' { TokenType::Star }
    else if c == '/' { TokenType::Slash }
    else { TokenType::Undefined }
}

/// The characters that may pair with a following `=` into a two-character
/// operator.
pub open spec fn is_operator_char(c: char) -> bool {
    c == '!' || c == '=' || c == '<' || c == '>'
}

/// The token type of an operator character when a `=` follows it.
pub open spec fn two_char_operator(c: char) -> TokenType {
    if c == '!' { TokenType::BangEqual }
    else if c == '=' { TokenType::EqualEqual }
    else if c == '<' { TokenType::LessEqual }
    else { TokenType::GreaterEqual }
}

/// The token type of an operator character when no `=` follows it.
pub open spec fn one_char_operator(c: char) -> TokenType {
    if c == '!' { TokenType::Bang }
    else if c == '=' { TokenType::Equal }
    else if c == '<' { TokenType::Less }
    else { TokenType::Greater }
}

/// The reserved words: a spelling that exactly matches one of them is emitted
/// as that keyword rather than as an identifier.
pub open spec fn spec_keyword(w: Seq<char>) -> Option<TokenType> {
    if w == "and"@ { Some(TokenType::And) }
    else if w == "class"@ { Some(TokenType::Class) }
    else if w == "else"@ { Some(TokenType::Else) }
    else if w == "false"@ { Some(TokenType::False) }
    else if w == "for"@ { Some(TokenType::For) }
    else if w == "fun"@ { Some(TokenType::Fun) }
    else if w == "if"@ { Some(TokenType::If) }
    else if w == "nil"@ { Some(TokenType::Nil) }
    else if w == "or"@ { Some(TokenType::Or) }
    else if w == "print"@ { Some(TokenType::Print) }
    else if w == "return"@ { Some(TokenType::Return) }
    else if w == "super"@ { Some(TokenType::Super) }
    else if w == "this"@ { Some(TokenType::This) }
    else if w == "true"@ { Some(TokenType::True) }
    else if w == "var"@ { Some(TokenType::Var) }
    else if w == "while"@ { Some(TokenType::While) }
    else { None }
}

/// First position at or after `j` that does not continue an identifier.
pub open spec fn word_end(s: Seq<char>, j: int) -> int
    decreases s.len() - j,
{
    if 0 <= j < s.len() && is_alnum_char(s[j]) { word_end(s, j + 1) } else { j }
}

/// First position at or after `j` that is not a decimal digit.
pub open spec fn digit_end(s: Seq<char>, j: int) -> int
    decreases s.len() - j,
{
    if 0 <= j < s.len() && is_digit_char(s[j]) { digit_end(s, j + 1) } else { j }
}

/// First position at or after `j` holding a newline, or the end of the input:
/// where a line comment stops being discarded.
pub open spec fn comment_end(s: Seq<char>, j: int) -> int
    decreases s.len() - j,
{
    if 0 <= j < s.len() && s[j] != '\n' { comment_end(s, j + 1) } else { j }
}

/// First position at or after `j` holding a closing quote, or the end of the
/// input if the string literal is unterminated.
pub open spec fn string_body_end(s: Seq<char>, j: int) -> int
    decreases s.len() - j,
{
    if 0 <= j < s.len() && s[j] != '"' { string_body_end(s, j + 1) } else { j }
}

/// How many newlines `s` holds in the half-open range `[j, k)`.
pub open spec fn newline_count(s: Seq<char>, j: int, k: int) -> int
    decreases k - j,
{
    if j < k {
        newline_count(s, j, k - 1) + if s[k - 1] == '\n' { 1int } else { 0int }
    } else {
        0
    }
}

pub proof fn lemma_word_end(s: Seq<char>, j: int)
    requires
        0 <= j <= s.len(),
    ensures
        j <= word_end(s, j) <= s.len(),
        forall|k: int| j <= k < word_end(s, j) ==> is_alnum_char(#[trigger] s[k]),
        word_end(s, j) < s.len() ==> !is_alnum_char(s[word_end(s, j)]),
    decreases s.len() - j,
{
    if j < s.len() && is_alnum_char(s[j]) {
        lemma_word_end(s, j + 1);
    }
}

pub proof fn lemma_digit_end(s: Seq<char>, j: int)
    requires
        0 <= j <= s.len(),
    ensures
        j <= digit_end(s, j) <= s.len(),
        forall|k: int| j <= k < digit_end(s, j) ==> is_digit_char(#[trigger] s[k]),
        digit_end(s, j) < s.len() ==> !is_digit_char(s[digit_end(s, j)]),
    decreases s.len() - j,
{
    if j < s.len() && is_digit_char(s[j]) {
        lemma_digit_end(s, j + 1);
    }
}

pub proof fn lemma_comment_end(s: Seq<char>, j: int)
    requires
        0 <= j <= s.len(),
    ensures
        j <= comment_end(s, j) <= s.len(),
        forall|k: int| j <= k < comment_end(s, j) ==> #[trigger] s[k] != '\n',
        comment_end(s, j) < s.len() ==> s[comment_end(s, j)] == '\n',
    decreases s.len() - j,
{
    if j < s.len() && s[j] != '\n' {
        lemma_comment_end(s, j + 1);
    }
}

pub proof fn lemma_string_body_end(s: Seq<char>, j: int)
    requires
        0 <= j <= s.len(),
    ensures
        j <= string_body_end(s, j) <= s.len(),
        forall|k: int| j <= k < string_body_end(s, j) ==> #[trigger] s[k] != '"',
        string_body_end(s, j) < s.len() ==> s[string_body_end(s, j)] == '"',
    decreases s.len() - j,
{
    if j < s.len() && s[j] != '"' {
        lemma_string_body_end(s, j + 1);
    }
}

pub proof fn lemma_newline_count_bounds(s: Seq<char>, j: int, k: int)
    requires
        j <= k,
    ensures
        0 <= newline_count(s, j, k) <= k - j,
    decreases k - j,
{
    if j < k {
        lemma_newline_count_bounds(s, j, k - 1);
    }
}

/// What recognizing one lexical unit (or skipping whitespace or a comment)
/// does: where the cursor and the line counter move, and which token and
/// diagnostic, if any, come out.
#[verifier::ext_equal]
pub ghost struct ScanStep {
    pub next: int,
    pub next_line: int,
    pub token: Option<SpecToken>,
    pub diag: Option<Diagnostic>,
}

/// A token whose literal field carries no value.
pub open spec fn simple_token(token_type: TokenType, lexeme: Seq<char>, line: int) -> SpecToken {
    SpecToken { token_type, lexeme, literal: SpecLiteral::Null, line }
}

/// One step of the scanner's character dispatch at position `i` on line
/// `line`: whitespace is skipped,
/// operators look one character ahead for `=`, `//` discards the rest of the
/// line, `"` opens a string literal, a digit a number, a letter an identifier
/// or keyword, and anything else is an unrecognized character.
pub open spec fn spec_step(s: Seq<char>, i: int, line: int) -> ScanStep
    recommends
        0 <= i < s.len(),
{
    let c = s[i];
    if is_space_char(c) {
        ScanStep {
            next: i + 1,
            next_line: line + if c == '\n' { 1int } else { 0int },
            token: None,
            diag: None,
        }
    } else if is_operator_char(c) {
        if i + 1 < s.len() && s[i + 1] == '=' {
            ScanStep {
                next: i + 2,
                next_line: line,
                token: Some(simple_token(two_char_operator(c), s.subrange(i, i + 2), line)),
                diag: None,
            }
        } else {
            ScanStep {
                next: i + 1,
                next_line: line,
                token: Some(simple_token(one_char_operator(c), s.subrange(i, i + 1), line)),
                diag: None,
            }
        }
    } else if c == '/' && i + 1 < s.len() && s[i + 1] == '/' {
        ScanStep { next: comment_end(s, i + 2), next_line: line, token: None, diag: None }
    } else if is_punct_char(c) {
        ScanStep {
            next: i + 1,
            next_line: line,
            token: Some(simple_token(punct_token_type(c), s.subrange(i, i + 1), line)),
            diag: None,
        }
    } else if c == '"' {
        let close = string_body_end(s, i + 1);
        let end_line = line + newline_count(s, i + 1, close);
        if close == s.len() {
            ScanStep {
                next: close,
                next_line: end_line,
                token: None,
                diag: Some(Diagnostic::UnterminatedString { line: line as usize }),
            }
        } else {
            ScanStep {
                next: close + 1,
                next_line: end_line,
                token: Some(SpecToken {
                    token_type: TokenType::String,
                    lexeme: s.subrange(i + 1, close),
                    literal: SpecLiteral::Str(s.subrange(i + 1, close)),
                    line: end_line,
                }),
                diag: None,
            }
        }
    } else if is_digit_char(c) {
        let whole = digit_end(s, i);
        let end = if whole < s.len() && s[whole] == '.' && whole + 1 < s.len()
            && is_digit_char(s[whole + 1]) {
            digit_end(s, whole + 1)
        } else {
            whole
        };
        ScanStep {
            next: end,
            next_line: line,
            token: Some(SpecToken {
                token_type: TokenType::Number,
                lexeme: s.subrange(i, end),
                literal: SpecLiteral::Num(s.subrange(i, end)),
                line,
            }),
            diag: None,
        }
    } else if is_alpha_char(c) {
        let end = word_end(s, i);
        let word = s.subrange(i, end);
        let token_type = match spec_keyword(word) {
            Some(k) => k,
            None => TokenType::Identifier,
        };
        ScanStep {
            next: end,
            next_line: line,
            token: Some(simple_token(token_type, word, line)),
            diag: None,
        }
    } else {
        ScanStep {
            next: i + 1,
            next_line: line,
            token: Some(simple_token(TokenType::Undefined, s.subrange(i, i + 1), line)),
            diag: Some(Diagnostic::UnrecognizedCharacter { ch: c, line: line as usize }),
        }
    }
}

/// Every dispatch step consumes at least one character and never runs past
/// the end of the input: scanning always terminates.
pub proof fn lemma_step_bounds(s: Seq<char>, i: int, line: int)
    requires
        0 <= i < s.len(),
    ensures
        i < spec_step(s, i, line).next <= s.len(),
{
    let c = s[i];
    if is_space_char(c) {
    } else if is_operator_char(c) {
    } else if c == '/' && i + 1 < s.len() && s[i + 1] == '/' {
        lemma_comment_end(s, i + 2);
    } else if is_punct_char(c) {
    } else if c == '"' {
        lemma_string_body_end(s, i + 1);
    } else if is_digit_char(c) {
        lemma_digit_end(s, i + 1);
        assert(digit_end(s, i) == digit_end(s, i + 1));
        let whole = digit_end(s, i);
        if whole < s.len() && s[whole] == '.' && whole + 1 < s.len() && is_digit_char(s[whole + 1]) {
            lemma_digit_end(s, whole + 1);
        }
    } else if is_alpha_char(c) {
        lemma_word_end(s, i + 1);
        assert(word_end(s, i) == word_end(s, i + 1));
    } else {
    }
}

/// Everything one scan produces: the tokens in order of recognition and the
/// diagnostics in order of occurrence.
#[verifier::ext_equal]
pub ghost struct ScanOutput {
    pub tokens: Seq<SpecToken>,
    pub diags: Seq<Diagnostic>,
}

pub open spec fn opt_token_seq(t: Option<SpecToken>) -> Seq<SpecToken> {
    match t {
        Some(tok) => seq![tok],
        None => Seq::empty(),
    }
}

pub open spec fn opt_diag_seq(d: Option<Diagnostic>) -> Seq<Diagnostic> {
    match d {
        Some(diag) => seq![diag],
        None => Seq::empty(),
    }
}

/// The result of scanning `s` from position `i` on line `line` to the end of
/// the input: the dispatch step at `i`, then the rest.
pub open spec fn spec_scan_from(s: Seq<char>, i: int, line: int) -> ScanOutput
    decreases s.len() - i,
{
    if 0 <= i < s.len() {
        let st = spec_step(s, i, line);
        proof {
            lemma_step_bounds(s, i, line);
        }
        let rest = spec_scan_from(s, st.next, st.next_line);
        ScanOutput {
            tokens: opt_token_seq(st.token) + rest.tokens,
            diags: opt_diag_seq(st.diag) + rest.diags,
        }
    } else {
        ScanOutput { tokens: Seq::empty(), diags: Seq::empty() }
    }
}

/// The result of scanning a whole source: from its first character, on line 1.
pub open spec fn spec_scan(s: Seq<char>) -> ScanOutput {
    spec_scan_from(s, 0, 1)
}

/// The views of a sequence of emitted tokens.
pub open spec fn tokens_view(tokens: Seq<Token>) -> Seq<SpecToken> {
    tokens.map_values(|t: Token| t@)
}

} // verus!
