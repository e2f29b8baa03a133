//! Global laws of the scanning model, stated and proved over whole source
//! strings.

use vstd::prelude::*;

use crate::literal::SpecLiteral;
use crate::model::{
    is_punct_char, is_space_char, lemma_step_bounds, punct_token_type, simple_token, spec_scan,
    spec_scan_from, spec_step,
};

verus! {

broadcast use vstd::seq_lib::group_seq_lib_default;

/// The punctuation characters of `s` from position `i` on, in source order.
pub open spec fn punct_chars(s: Seq<char>, i: int) -> Seq<char>
    decreases s.len() - i,
{
    if 0 <= i < s.len() {
        if is_punct_char(s[i]) {
            seq![s[i]] + punct_chars(s, i + 1)
        } else {
            punct_chars(s, i + 1)
        }
    } else {
        Seq::empty()
    }
}

/// How many characters of `s` from position `i` on are not whitespace.
pub open spec fn non_space_count(s: Seq<char>, i: int) -> int
    decreases s.len() - i,
{
    if 0 <= i < s.len() {
        (if is_space_char(s[i]) { 0int } else { 1int }) + non_space_count(s, i + 1)
    } else {
        0
    }
}

/// Every character of `s` is whitespace or recognized single-character
/// punctuation.
pub open spec fn punct_and_space_only(s: Seq<char>) -> bool {
    forall|j: int| 0 <= j < s.len() ==> is_space_char(#[trigger] s[j]) || is_punct_char(s[j])
}

/// The punctuation of `s` is separated by whitespace: no punctuation
/// character directly follows another.
pub open spec fn punct_separated(s: Seq<char>) -> bool {
    forall|j: int|
        0 <= j < s.len() - 1 ==> (is_punct_char(#[trigger] s[j]) ==> !is_punct_char(s[j + 1]))
}

/// Under the premises, the punctuation characters are exactly the
/// non-whitespace characters.
proof fn lemma_punct_chars_count(s: Seq<char>, i: int)
    requires
        punct_and_space_only(s),
        0 <= i <= s.len(),
    ensures
        punct_chars(s, i).len() == non_space_count(s, i),
    decreases s.len() - i,
{
    if i < s.len() {
        lemma_punct_chars_count(s, i + 1);
    }
}

/// The inductive heart of the law below: from any position and line, a source
/// of whitespace-separated punctuation scans to one token per punctuation
/// character, in order.
proof fn lemma_scan_from_punct(s: Seq<char>, i: int, line: int)
    requires
        punct_and_space_only(s),
        punct_separated(s),
        0 <= i <= s.len(),
    ensures
        spec_scan_from(s, i, line).tokens.len() == punct_chars(s, i).len(),
        forall|k: int|
            0 <= k < punct_chars(s, i).len() ==> {
                &&& (#[trigger] spec_scan_from(s, i, line).tokens[k]).token_type
                    == punct_token_type(punct_chars(s, i)[k])
                &&& spec_scan_from(s, i, line).tokens[k].lexeme == seq![punct_chars(s, i)[k]]
                &&& spec_scan_from(s, i, line).tokens[k].literal == SpecLiteral::Null
            },
    decreases s.len() - i,
{
    if i < s.len() {
        let c = s[i];
        let st = spec_step(s, i, line);
        lemma_step_bounds(s, i, line);
        if is_space_char(c) {
            lemma_scan_from_punct(s, i + 1, st.next_line);
            assert(spec_scan_from(s, i, line).tokens =~= spec_scan_from(
                s,
                i + 1,
                st.next_line,
            ).tokens);
            assert(punct_chars(s, i) == punct_chars(s, i + 1));
        } else {
            assert(is_punct_char(c));
            if c == '/' && i + 1 < s.len() && s[i + 1] == '/' {
                assert(is_punct_char(s[i + 1]));
                assert(false);
            }
            let tok = simple_token(punct_token_type(c), s.subrange(i, i + 1), line);
            assert(st.token == Some(tok));
            assert(st.next == i + 1);
            lemma_scan_from_punct(s, i + 1, line);
            assert(spec_scan_from(s, i, line).tokens =~= seq![tok] + spec_scan_from(
                s,
                i + 1,
                line,
            ).tokens);
            assert(punct_chars(s, i) =~= seq![c] + punct_chars(s, i + 1));
            assert forall|k: int| 0 <= k < punct_chars(s, i).len() implies {
                &&& (#[trigger] spec_scan_from(s, i, line).tokens[k]).token_type
                    == punct_token_type(punct_chars(s, i)[k])
                &&& spec_scan_from(s, i, line).tokens[k].lexeme == seq![punct_chars(s, i)[k]]
                &&& spec_scan_from(s, i, line).tokens[k].literal == SpecLiteral::Null
            } by {
                if k == 0 {
                    assert(s.subrange(i, i + 1) =~= seq![s[i]]);
                } else {
                    assert(spec_scan_from(s, i, line).tokens[k] == spec_scan_from(
                        s,
                        i + 1,
                        line,
                    ).tokens[k - 1]);
                    assert(punct_chars(s, i)[k] == punct_chars(s, i + 1)[k - 1]);
                }
            }
        }
    }
}

/// Law: for a source containing only recognized single-character punctuation
/// separated by whitespace, the output token count equals the count of
/// non-whitespace characters, and the tokens come in the source's
/// left-to-right order — the k-th token is the k-th punctuation character's
/// token, carries that character alone as its lexeme, and holds no literal
/// value.
pub proof fn lemma_punctuation_separated_by_whitespace(s: Seq<char>)
    requires
        punct_and_space_only(s),
        punct_separated(s),
    ensures
        spec_scan(s).tokens.len() == non_space_count(s, 0),
        spec_scan(s).tokens.len() == punct_chars(s, 0).len(),
        forall|k: int|
            0 <= k < punct_chars(s, 0).len() ==> {
                &&& (#[trigger] spec_scan(s).tokens[k]).token_type == punct_token_type(
                    punct_chars(s, 0)[k],
                )
                &&& spec_scan(s).tokens[k].lexeme == seq![punct_chars(s, 0)[k]]
                &&& spec_scan(s).tokens[k].literal == SpecLiteral::Null
            },
{
    lemma_punct_chars_count(s, 0);
    lemma_scan_from_punct(s, 0, 1);
}

} // verus!
