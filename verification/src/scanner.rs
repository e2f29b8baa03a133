//! The scanner: a single left-to-right pass over a source string that
//! produces the token sequence and diagnostics of [`crate::model::spec_scan`].
//!
//! Faults are accumulated: an unterminated string or an unrecognized
//! character is recorded as a [`Diagnostic`] and scanning continues, so the
//! caller receives every valid token together with every fault. The returned
//! `Result` is always `Ok`; its error arm is kept for callers that treat the
//! scan as one stage of a longer pipeline.

use vstd::prelude::*;
use vstd::string::StrSliceExecFns;

use crate::diagnostic::Diagnostic;
use crate::literal::Literal;
use crate::model::{
    comment_end, digit_end, is_alnum_char, is_alpha_char, is_digit_char, is_space_char,
    lemma_comment_end, lemma_digit_end, lemma_newline_count_bounds,
    lemma_step_bounds, lemma_string_body_end, lemma_word_end, newline_count, opt_diag_seq, opt_token_seq,
    simple_token, spec_keyword, spec_scan_from, spec_step, string_body_end, tokens_view, word_end,
};
use crate::token::{SpecToken, Token};
use crate::token_type::TokenType;

verus! {

broadcast use vstd::seq_lib::group_seq_lib_default, vstd::seq::Seq::lemma_push_map_commute;

/// Whether the scanner skips `c` as whitespace.
fn is_space(c: char) -> (r: bool)
    ensures
        r == is_space_char(c),
{
    c == ' ' || c == '\t' || c == '\r' || c == '\n'
}

/// Whether `c` is a decimal digit.
fn is_digit(c: char) -> (r: bool)
    ensures
        r == is_digit_char(c),
{
    '0' as u32 <= c as u32 && c as u32 <= '9' as u32
}

/// Whether `c` is a letter.
fn is_alpha(c: char) -> (r: bool)
    ensures
        r == is_alpha_char(c),
{
    ('a' as u32 <= c as u32 && c as u32 <= 'z' as u32)
    || ('A' as u32 <= c as u32 && c as u32 <= 'Z' as u32)
}

/// Whether `c` continues an identifier.
fn is_alnum(c: char) -> (r: bool)
    ensures
        r == is_alnum_char(c),
{
    is_digit(c) || is_alpha(c)
}

/// The read-only keyword table: the token type of a reserved-word spelling,
/// or `None` for any other spelling.
fn keyword_type(word: &String) -> (r: Option<TokenType>)
    ensures
        r == spec_keyword(word@),
{
    if *word == "and".to_owned() { Some(TokenType::And) }
    else if *word == "class".to_owned() { Some(TokenType::Class) }
    else if *word == "else".to_owned() { Some(TokenType::Else) }
    else if *word == "false".to_owned() { Some(TokenType::False) }
    else if *word == "for".to_owned() { Some(TokenType::For) }
    else if *word == "fun".to_owned() { Some(TokenType::Fun) }
    else if *word == "if".to_owned() { Some(TokenType::If) }
    else if *word == "nil".to_owned() { Some(TokenType::Nil) }
    else if *word == "or".to_owned() { Some(TokenType::Or) }
    else if *word == "print".to_owned() { Some(TokenType::Print) }
    else if *word == "return".to_owned() { Some(TokenType::Return) }
    else if *word == "super".to_owned() { Some(TokenType::Super) }
    else if *word == "this".to_owned() { Some(TokenType::This) }
    else if *word == "true".to_owned() { Some(TokenType::True) }
    else if *word == "var".to_owned() { Some(TokenType::Var) }
    else if *word == "while".to_owned() { Some(TokenType::While) }
    else { None }
}

/// The scanner's state: the source, a pre-decoded copy of its characters (so
/// each step reads one character in constant time), the `start`/`current`
/// cursor pair delimiting the lexeme under construction, the 1-based line
/// counter, and the accumulated tokens and diagnostics.
pub struct Scanner {
    pub source: String,
    pub chars: Vec<char>,
    pub start: usize,
    pub current: usize,
    pub line: usize,
    pub tokens: Vec<Token>,
    pub diagnostics: Vec<Diagnostic>,
}

impl Scanner {
    /// The scanner's internal invariant: the decoded characters mirror the
    /// source, the cursor pair is ordered and in bounds, and the line counter
    /// grew by at most one per consumed character (so it cannot overflow).
    pub open spec fn wf(self) -> bool {
        &&& self.chars@ == self.source@
        &&& self.start <= self.current <= self.chars@.len()
        &&& 1 <= self.line <= 1 + self.current
        &&& self.chars@.len() < usize::MAX
    }

    /// Builds a scanner positioned at the start of `source`, on line 1, with
    /// nothing accumulated yet.
    #[verifier::loop_isolation(false)]
    pub fn new(source: String) -> (scanner: Scanner)
        requires
            source@.len() < usize::MAX,
        ensures
            scanner.wf(),
            scanner.source@ == source@,
            scanner.start == 0,
            scanner.current == 0,
            scanner.line == 1,
            scanner.tokens@ == Seq::<Token>::empty(),
            scanner.diagnostics@ == Seq::<Diagnostic>::empty(),
    {
        let n = source.as_str().unicode_len();
        let mut chars: Vec<char> = Vec::new();
        let mut i: usize = 0;
        while i < n
            invariant
                i <= n,
                n == source@.len(),
                chars@ == source@.subrange(0, i as int),
            decreases n - i,
        {
            chars.push(source.as_str().get_char(i));
            proof {
                assert(chars@ =~= source@.subrange(0, i + 1 as int));
            }
            i = i + 1;
        }
        proof {
            assert(source@.subrange(0, source@.len() as int) =~= source@);
        }
        Scanner {
            source,
            chars,
            start: 0,
            current: 0,
            line: 1,
            tokens: Vec::new(),
            diagnostics: Vec::new(),
        }
    }

    /// Whether the cursor has reached the end of the input.
    fn is_at_end(&self) -> (r: bool)
        ensures
            r == (self.current >= self.chars@.len()),
    {
        self.current >= self.chars.len()
    }

    /// Consumes and returns the character under the cursor.
    fn advance(&mut self) -> (c: char)
        requires
            old(self).wf(),
            old(self).current < old(self).chars@.len(),
        ensures
            final(self).wf(),
            c == old(self).chars@[old(self).current as int],
            final(self).current == old(self).current + 1,
            final(self).source == old(self).source,
            final(self).chars == old(self).chars,
            final(self).start == old(self).start,
            final(self).line == old(self).line,
            final(self).tokens == old(self).tokens,
            final(self).diagnostics == old(self).diagnostics,
    {
        let c = self.chars[self.current];
        self.current = self.current + 1;
        c
    }

    /// The character under the cursor, or the null character at the end of
    /// the input.
    fn current_token(&self) -> (c: char)
        ensures
            c == if self.current < self.chars@.len() {
                self.chars@[self.current as int]
            } else {
                '\0'
            },
    {
        if self.is_at_end() {
            '\0'
        } else {
            self.chars[self.current]
        }
    }

    /// The character one past the cursor, or the null character if there is
    /// none.
    fn next_token(&self) -> (c: char)
        requires
            self.current <= self.chars@.len(),
            self.chars@.len() < usize::MAX,
        ensures
            c == if self.current + 1 < self.chars@.len() {
                self.chars@[self.current as int + 1]
            } else {
                '\0'
            },
    {
        if self.current + 1 >= self.chars.len() {
            '\0'
        } else {
            self.chars[self.current + 1]
        }
    }

    /// One-character lookahead with commit: consumes the character under the
    /// cursor exactly when it equals `expected`.
    fn next_token_is(&mut self, expected: char) -> (r: bool)
        requires
            old(self).wf(),
        ensures
            final(self).wf(),
            r == (old(self).current < old(self).chars@.len()
                && old(self).chars@[old(self).current as int] == expected),
            final(self).current as int == if r { old(self).current + 1 } else { old(self).current as int },
            final(self).source == old(self).source,
            final(self).chars == old(self).chars,
            final(self).start == old(self).start,
            final(self).line == old(self).line,
            final(self).tokens == old(self).tokens,
            final(self).diagnostics == old(self).diagnostics,
    {
        if self.is_at_end() {
            false
        } else if self.chars[self.current] != expected {
            false
        } else {
            self.current = self.current + 1;
            true
        }
    }

    /// Emits one token for the lexeme between `start` and `current`: the
    /// exact source substring, except that a string literal's lexeme excludes
    /// its delimiting quotes.
    fn add_token_with_literal(&mut self, token_type: TokenType, literal: Option<Literal>)
        requires
            old(self).wf(),
            (match literal {
                Option::Some(Literal::StringLiteral(_)) => old(self).start + 2 <= old(self).current,
                _ => true,
            }),
        ensures
            final(self).wf(),
            final(self).source == old(self).source,
            final(self).chars == old(self).chars,
            final(self).start == old(self).start,
            final(self).current == old(self).current,
            final(self).line == old(self).line,
            final(self).diagnostics == old(self).diagnostics,
            tokens_view(final(self).tokens@) == tokens_view(old(self).tokens@) + seq![
                (SpecToken {
                    token_type,
                    lexeme: (match literal {
                        Option::Some(Literal::StringLiteral(_)) => old(self).source@.subrange(
                            old(self).start + 1,
                            old(self).current - 1,
                        ),
                        _ => old(self).source@.subrange(
                            old(self).start as int,
                            old(self).current as int,
                        ),
                    }),
                    literal: crate::token::opt_literal_view(literal),
                    line: old(self).line as int,
                }),
            ],
    {
        let lexeme: String = match &literal {
            Option::Some(Literal::StringLiteral(_)) => self
                .source
                .as_str()
                .substring_char(self.start + 1, self.current - 1)
                .to_owned(),
            _ => self.source.as_str().substring_char(self.start, self.current).to_owned(),
        };
        let token = Token::new(token_type, lexeme.as_str(), literal, self.line);
        self.tokens.push(token);
    }

    /// Emits one token carrying no literal value.
    fn add_token(&mut self, token_type: TokenType)
        requires
            old(self).wf(),
        ensures
            final(self).wf(),
            final(self).source == old(self).source,
            final(self).chars == old(self).chars,
            final(self).start == old(self).start,
            final(self).current == old(self).current,
            final(self).line == old(self).line,
            final(self).diagnostics == old(self).diagnostics,
            tokens_view(final(self).tokens@) == tokens_view(old(self).tokens@) + seq![
                simple_token(
                    token_type,
                    old(self).source@.subrange(old(self).start as int, old(self).current as int),
                    old(self).line as int,
                ),
            ],
    {
        self.add_token_with_literal(token_type, Option::Some(Literal::Null));
    }

    /// Emits the two-character operator token when the next character is `=`,
    /// the one-character token otherwise.
    fn handle_token(&mut self, token_match: TokenType, other_match: TokenType)
        requires
            old(self).wf(),
            old(self).start < old(self).current,
        ensures
            final(self).wf(),
            final(self).source == old(self).source,
            final(self).chars == old(self).chars,
            final(self).start == old(self).start,
            final(self).line == old(self).line,
            final(self).diagnostics == old(self).diagnostics,
            ({
                let s = old(self).source@;
                let j = old(self).current as int;
                if j < s.len() && s[j] == '=' {
                    &&& final(self).current == old(self).current + 1
                    &&& tokens_view(final(self).tokens@) == tokens_view(old(self).tokens@) + seq![
                        simple_token(
                            token_match,
                            s.subrange(old(self).start as int, j + 1),
                            old(self).line as int,
                        ),
                    ]
                } else {
                    &&& final(self).current == old(self).current
                    &&& tokens_view(final(self).tokens@) == tokens_view(old(self).tokens@) + seq![
                        simple_token(
                            other_match,
                            s.subrange(old(self).start as int, j),
                            old(self).line as int,
                        ),
                    ]
                }
            }),
    {
        if self.next_token_is('=') {
            self.add_token(token_match)
        } else {
            self.add_token(other_match)
        }
    }

    /// Consumes a string literal whose opening quote sits at `start`. On a
    /// closing quote, emits a `String` token carrying the unquoted text; at
    /// the end of the input, records an unterminated-string diagnostic on the
    /// opening quote's line and emits nothing. Embedded newlines advance the
    /// line counter.
    #[verifier::loop_isolation(false)]
    fn read_string(&mut self)
        requires
            old(self).wf(),
            old(self).start + 1 == old(self).current,
            old(self).start < old(self).chars@.len(),
            old(self).chars@[old(self).start as int] == '"',
        ensures
            final(self).wf(),
            final(self).source == old(self).source,
            final(self).chars == old(self).chars,
            final(self).start == old(self).start,
            ({
                let st = spec_step(
                    old(self).source@,
                    old(self).start as int,
                    old(self).line as int,
                );
                &&& final(self).current as int == st.next
                &&& final(self).line as int == st.next_line
                &&& tokens_view(final(self).tokens@) == tokens_view(old(self).tokens@)
                    + opt_token_seq(st.token)
                &&& final(self).diagnostics@ == old(self).diagnostics@ + opt_diag_seq(st.diag)
            }),
    {
        let ghost s = self.source@;
        let ghost i = self.start as int;
        let ghost line0 = self.line as int;
        let opening_line = self.line;
        while self.current_token() != '"' && !self.is_at_end()
            invariant
                self.wf(),
                self.source == old(self).source,
                self.chars == old(self).chars,
                self.start == old(self).start,
                self.tokens == old(self).tokens,
                self.diagnostics == old(self).diagnostics,
                i + 1 <= self.current as int <= s.len(),
                forall|k: int| i + 1 <= k < self.current as int ==> #[trigger] s[k] != '"',
                self.line as int == line0 + newline_count(s, i + 1, self.current as int),
            decreases s.len() - self.current,
        {
            let ch = self.advance();
            if ch == '\n' {
                self.line = self.line + 1;
            }
        }
        proof {
            lemma_string_body_end(s, i + 1);
            lemma_newline_count_bounds(s, i + 1, self.current as int);
            let e = string_body_end(s, i + 1);
            let cur = self.current as int;
            if cur < e {
                assert(s[cur] != '"');
                assert(false);
            }
            if cur > e {
                assert(s[e] != '"');
                assert(false);
            }
        }
        if self.is_at_end() {
            self.diagnostics.push(Diagnostic::UnterminatedString { line: opening_line });
            return;
        }
        self.advance();
        let text: String = self
            .source
            .as_str()
            .substring_char(self.start + 1, self.current - 1)
            .to_owned();
        self.add_token_with_literal(TokenType::String, Option::Some(Literal::StringLiteral(text)));
    }

    /// Consumes a number whose first digit sits at `start`: all contiguous
    /// digits, then one dot and the digits after it, but only when a digit
    /// directly follows the dot. Emits a `Number` token carrying the matched
    /// span's exact spelling.
    #[verifier::loop_isolation(false)]
    fn read_number(&mut self)
        requires
            old(self).wf(),
            old(self).start + 1 == old(self).current,
            old(self).start < old(self).chars@.len(),
            is_digit_char(old(self).chars@[old(self).start as int]),
        ensures
            final(self).wf(),
            final(self).source == old(self).source,
            final(self).chars == old(self).chars,
            final(self).start == old(self).start,
            ({
                let st = spec_step(
                    old(self).source@,
                    old(self).start as int,
                    old(self).line as int,
                );
                &&& final(self).current as int == st.next
                &&& final(self).line as int == st.next_line
                &&& tokens_view(final(self).tokens@) == tokens_view(old(self).tokens@)
                    + opt_token_seq(st.token)
                &&& final(self).diagnostics@ == old(self).diagnostics@ + opt_diag_seq(st.diag)
            }),
    {
        let ghost s = self.source@;
        let ghost i = self.start as int;
        while self.current < self.chars.len() && is_digit(self.chars[self.current])
            invariant
                self.wf(),
                self.source == old(self).source,
                self.chars == old(self).chars,
                self.start == old(self).start,
                self.line == old(self).line,
                self.tokens == old(self).tokens,
                self.diagnostics == old(self).diagnostics,
                i + 1 <= self.current as int <= s.len(),
                forall|k: int| i + 1 <= k < self.current as int ==> is_digit_char(#[trigger] s[k]),
            decreases s.len() - self.current,
        {
            self.current = self.current + 1;
        }
        proof {
            lemma_digit_end(s, i + 1);
            let e = digit_end(s, i + 1);
            let cur = self.current as int;
            if cur < e {
                assert(is_digit_char(s[cur]));
                assert(false);
            }
            if cur > e {
                assert(!is_digit_char(s[e]));
                assert(false);
            }
            assert(digit_end(s, i) == digit_end(s, i + 1));
        }
        if self.current_token() == '.' && is_digit(self.next_token()) {
            self.current = self.current + 1;
            let ghost dot = self.current as int;
            while self.current < self.chars.len() && is_digit(self.chars[self.current])
                invariant
                    self.wf(),
                    self.source == old(self).source,
                    self.chars == old(self).chars,
                    self.start == old(self).start,
                    self.line == old(self).line,
                    self.tokens == old(self).tokens,
                    self.diagnostics == old(self).diagnostics,
                    dot <= self.current as int <= s.len(),
                    forall|k: int| dot <= k < self.current as int ==> is_digit_char(#[trigger] s[k]),
                decreases s.len() - self.current,
            {
                self.current = self.current + 1;
            }
            proof {
                lemma_digit_end(s, dot);
                let e = digit_end(s, dot);
                let cur = self.current as int;
                if cur < e {
                    assert(is_digit_char(s[cur]));
                    assert(false);
                }
                if cur > e {
                    assert(!is_digit_char(s[e]));
                    assert(false);
                }
            }
        }
        let span: String = self
            .source
            .as_str()
            .substring_char(self.start, self.current)
            .to_owned();
        self.add_token_with_literal(TokenType::Number, Option::Some(Literal::NumberLiteral(span)));
    }

    /// Consumes an identifier whose first letter sits at `start`: all
    /// contiguous alphanumeric characters. A spelling that exactly matches a
    /// reserved word is emitted as that keyword, any other as `Identifier`.
    #[verifier::loop_isolation(false)]
    fn read_identifier(&mut self)
        requires
            old(self).wf(),
            old(self).start + 1 == old(self).current,
            old(self).start < old(self).chars@.len(),
            is_alpha_char(old(self).chars@[old(self).start as int]),
        ensures
            final(self).wf(),
            final(self).source == old(self).source,
            final(self).chars == old(self).chars,
            final(self).start == old(self).start,
            ({
                let st = spec_step(
                    old(self).source@,
                    old(self).start as int,
                    old(self).line as int,
                );
                &&& final(self).current as int == st.next
                &&& final(self).line as int == st.next_line
                &&& tokens_view(final(self).tokens@) == tokens_view(old(self).tokens@)
                    + opt_token_seq(st.token)
                &&& final(self).diagnostics@ == old(self).diagnostics@ + opt_diag_seq(st.diag)
            }),
    {
        let ghost s = self.source@;
        let ghost i = self.start as int;
        while self.current < self.chars.len() && is_alnum(self.chars[self.current])
            invariant
                self.wf(),
                self.source == old(self).source,
                self.chars == old(self).chars,
                self.start == old(self).start,
                self.line == old(self).line,
                self.tokens == old(self).tokens,
                self.diagnostics == old(self).diagnostics,
                i + 1 <= self.current as int <= s.len(),
                forall|k: int| i + 1 <= k < self.current as int ==> is_alnum_char(#[trigger] s[k]),
            decreases s.len() - self.current,
        {
            self.current = self.current + 1;
        }
        proof {
            lemma_word_end(s, i + 1);
            let e = word_end(s, i + 1);
            let cur = self.current as int;
            if cur < e {
                assert(is_alnum_char(s[cur]));
                assert(false);
            }
            if cur > e {
                assert(!is_alnum_char(s[e]));
                assert(false);
            }
            assert(word_end(s, i) == word_end(s, i + 1));
        }
        let word: String = self
            .source
            .as_str()
            .substring_char(self.start, self.current)
            .to_owned();
        match keyword_type(&word) {
            Option::Some(token_type) => self.add_token(token_type),
            Option::None => self.add_token(TokenType::Identifier),
        }
    }

    /// Recognizes one lexical unit at the cursor (or skips whitespace or a
    /// comment), exactly as [`spec_step`] describes.
    #[verifier::loop_isolation(false)]
    fn scan_token(&mut self)
        requires
            old(self).wf(),
            old(self).start == old(self).current,
            old(self).current < old(self).chars@.len(),
        ensures
            final(self).wf(),
            final(self).source == old(self).source,
            final(self).chars == old(self).chars,
            ({
                let st = spec_step(
                    old(self).source@,
                    old(self).current as int,
                    old(self).line as int,
                );
                &&& final(self).current as int == st.next
                &&& final(self).line as int == st.next_line
                &&& tokens_view(final(self).tokens@) == tokens_view(old(self).tokens@)
                    + opt_token_seq(st.token)
                &&& final(self).diagnostics@ == old(self).diagnostics@ + opt_diag_seq(st.diag)
            }),
    {
        let ghost s = self.source@;
        let ghost i = self.current as int;
        let c = self.advance();
        if is_space(c) {
            // '\n' counts as whitespace too, so the line advances here
            if c == '\n' {
                self.line = self.line + 1;
            }
            return;
        }
        if c == '!' {
            self.handle_token(TokenType::BangEqual, TokenType::Bang);
            return;
        }
        if c == '=' {
            self.handle_token(TokenType::EqualEqual, TokenType::Equal);
            return;
        }
        if c == '<' {
            self.handle_token(TokenType::LessEqual, TokenType::Less);
            return;
        }
        if c == '>' {
            self.handle_token(TokenType::GreaterEqual, TokenType::Greater);
            return;
        }
        if c == '/' {
            if self.next_token_is('/') {
                // a comment runs to the end of the line and emits nothing
                while self.current_token() != '\n' && !self.is_at_end()
                    invariant
                        self.wf(),
                        self.source == old(self).source,
                        self.chars == old(self).chars,
                        self.start == old(self).start,
                        self.line == old(self).line,
                        self.tokens == old(self).tokens,
                        self.diagnostics == old(self).diagnostics,
                        i + 2 <= self.current as int <= s.len(),
                        forall|k: int| i + 2 <= k < self.current as int ==> #[trigger] s[k] != '\n',
                    decreases s.len() - self.current,
                {
                    self.advance();
                }
                proof {
                    lemma_comment_end(s, i + 2);
                    let e = comment_end(s, i + 2);
                    let cur = self.current as int;
                    if cur < e {
                        assert(s[cur] != '\n');
                        assert(false);
                    }
                    if cur > e {
                        assert(s[e] != '\n');
                        assert(false);
                    }
                }
            } else {
                self.add_token(TokenType::Slash);
            }
            return;
        }
        if c == '(' {
            self.add_token(TokenType::LeftParen);
            return;
        }
        if c == ')' {
            self.add_token(TokenType::RightParen);
            return;
        }
        if c == '{' {
            self.add_token(TokenType::LeftBrace);
            return;
        }
        if c == '}' {
            self.add_token(TokenType::RightBrace);
            return;
        }
        if c == ',' {
            self.add_token(TokenType::Comma);
            return;
        }
        if c == '.' {
            self.add_token(TokenType::Dot);
            return;
        }
        if c == '-' {
            self.add_token(TokenType::Minus);
            return;
        }
        if c == '+' {
            self.add_token(TokenType::Plus);
            return;
        }
        if c == ';' {
            self.add_token(TokenType::Semicolon);
            return;
        }
        if c == '*' {
            self.add_token(TokenType::Star);
            return;
        }
        if c == '"' {
            self.read_string();
            return;
        }
        if is_digit(c) {
            self.read_number();
            return;
        }
        if is_alpha(c) {
            self.read_identifier();
            return;
        }
        // not whitespace and matching no recognized class: record the fault
        // and emit a sentinel token, then scanning continues
        self.diagnostics.push(Diagnostic::UnrecognizedCharacter { ch: c, line: self.line });
        self.add_token(TokenType::Undefined);
    }

    /// Scans to the end of the input: repeatedly marks the start of a lexeme
    /// and recognizes one token (or skips whitespace or a comment). Returns
    /// the accumulated token sequence, whose ownership passes to the caller;
    /// the collected diagnostics remain readable through [`Self::diagnostics`].
    #[verifier::loop_isolation(false)]
    pub fn scan_tokens(&mut self) -> (r: Result<Vec<Token>, &'static str>)
        requires
            old(self).wf(),
        ensures
            final(self).wf(),
            final(self).source == old(self).source,
            r is Ok,
            tokens_view(r->Ok_0@) == tokens_view(old(self).tokens@) + spec_scan_from(
                old(self).source@,
                old(self).current as int,
                old(self).line as int,
            ).tokens,
            final(self).diagnostics@ == old(self).diagnostics@ + spec_scan_from(
                old(self).source@,
                old(self).current as int,
                old(self).line as int,
            ).diags,
    {
        let ghost s = self.source@;
        let ghost t0 = tokens_view(self.tokens@);
        let ghost d0 = self.diagnostics@;
        let ghost c0 = self.current as int;
        let ghost l0 = self.line as int;
        while !self.is_at_end()
            invariant
                self.wf(),
                self.source == old(self).source,
                self.chars == old(self).chars,
                tokens_view(self.tokens@) + spec_scan_from(
                    s,
                    self.current as int,
                    self.line as int,
                ).tokens == t0 + spec_scan_from(s, c0, l0).tokens,
                self.diagnostics@ + spec_scan_from(s, self.current as int, self.line as int).diags
                    == d0 + spec_scan_from(s, c0, l0).diags,
            decreases self.chars@.len() - self.current,
        {
            self.start = self.current;
            let ghost cur = self.current as int;
            let ghost ln = self.line as int;
            let ghost tpre = tokens_view(self.tokens@);
            let ghost dpre = self.diagnostics@;
            self.scan_token();
            proof {
                lemma_step_bounds(s, cur, ln);
                let st = spec_step(s, cur, ln);
                let rest = spec_scan_from(s, st.next, st.next_line);
                assert(spec_scan_from(s, cur, ln).tokens == opt_token_seq(st.token) + rest.tokens);
                assert(spec_scan_from(s, cur, ln).diags == opt_diag_seq(st.diag) + rest.diags);
                assert((tpre + opt_token_seq(st.token)) + rest.tokens =~= tpre + (opt_token_seq(
                    st.token,
                ) + rest.tokens));
                assert((dpre + opt_diag_seq(st.diag)) + rest.diags =~= dpre + (opt_diag_seq(
                    st.diag,
                ) + rest.diags));
            }
        }
        proof {
            assert(spec_scan_from(s, self.current as int, self.line as int).tokens
                =~= Seq::<SpecToken>::empty());
            assert(spec_scan_from(s, self.current as int, self.line as int).diags
                =~= Seq::<Diagnostic>::empty());
        }
        let mut out: Vec<Token> = Vec::new();
        core::mem::swap(&mut self.tokens, &mut out);
        Ok(out)
    }

    /// The diagnostics collected so far, in order of occurrence.
    pub fn diagnostics(&self) -> (r: &Vec<Diagnostic>)
        ensures
            r@ == self.diagnostics@,
    {
        &self.diagnostics
    }
}

} // verus!
