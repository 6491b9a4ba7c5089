use crate::grammar::{
    eof_token, is_alpha, keyword_kind, lemma_keyword_kind, lemma_run_end, lemma_step_advances,
    line_after, newlines, run_end, scan_from, scan_step, CharClass,
};
use crate::token::{TokenType, TokenView};
use vstd::prelude::*;

verus! {

/// Newlines are counted piece by piece: the count over `[a, c)` is the sum
/// of the counts over `[a, b)` and `[b, c)`.
pub proof fn lemma_newlines_split(s: Seq<char>, a: int, b: int, c: int)
    requires
        a <= b <= c,
    ensures
        newlines(s, a, c) == newlines(s, a, b) + newlines(s, b, c),
    decreases c - b,
{
    if b < c {
        lemma_newlines_split(s, a, b, c - 1);
    }
}

/// The token `t` was matched from `s[a..b)`: its lexeme is that slice, or,
/// for a string, the text strictly between the quotes at `a` and `b - 1`,
/// which itself holds no quote.
pub open spec fn matched_at(s: Seq<char>, t: TokenView, a: int, b: int) -> bool {
    if t.kind == TokenType::Str {
        &&& a + 2 <= b
        &&& s[a] == '"'
        &&& s[b - 1] == '"'
        &&& t.lexeme == s.subrange(a + 1, b - 1)
        &&& forall|k: int| a < k < b - 1 ==> s[k] != '"'
    } else {
        t.lexeme == s.subrange(a, b)
    }
}

/// A step emits at most one token and at most one diagnostic, never both.
/// The token is no end-of-input token, starts on the step's line, and was
/// matched from exactly the characters that the step consumed.
pub proof fn lemma_step_token(s: Seq<char>, pos: int, line: nat)
    requires
        0 <= pos < s.len(),
    ensures
        ({
            let step = scan_step(s, pos, line);
            &&& pos < step.next <= s.len()
            &&& step.tokens.len() + step.diagnostics.len() <= 1
            &&& step.tokens.len() == 1 ==> {
                &&& step.tokens[0].kind != TokenType::EOF
                &&& step.tokens[0].line == line
                &&& matched_at(s, step.tokens[0], pos, step.next)
            }
        }),
{
    lemma_step_advances(s, pos, line);
    let c = s[pos];
    if c == '"' {
        lemma_run_end(s, pos + 1, CharClass::NotQuote);
    } else if is_alpha(c) {
        let end = run_end(s, pos, CharClass::Word);
        let text = s.subrange(pos, end);
        if keyword_kind(text) is Some {
            lemma_keyword_kind(text, keyword_kind(text)->0);
        }
    }
}

/// Behind its first `kept` tokens, `tokens` holds exactly one end-of-input
/// token: its last token, with an empty lexeme, on `line`.
pub open spec fn ends_with_single_eof(tokens: Seq<TokenView>, kept: int, line: nat) -> bool {
    &&& tokens.len() > kept
    &&& tokens.last() == eof_token(line)
    &&& forall|i: int|
        kept <= i < tokens.len() - 1 ==> (#[trigger] tokens[i]).kind != TokenType::EOF
}

/// A pass ends with exactly one end-of-input token: the sequence is not
/// empty, its last token is the end-of-input token on the line that the
/// newlines of the source lead to, and no token before it is one.
pub proof fn lemma_single_eof(s: Seq<char>, pos: int, line: nat)
    requires
        0 <= pos <= s.len(),
    ensures
        ends_with_single_eof(
            scan_from(s, pos, line).tokens,
            0,
            line + newlines(s, pos, s.len() as int),
        ),
    decreases s.len() - pos,
{
    if pos < s.len() {
        let step = scan_step(s, pos, line);
        lemma_step_token(s, pos, line);
        lemma_single_eof(s, step.next, line_after(s, pos, step.next, line));
        lemma_newlines_split(s, pos, step.next, s.len() as int);
    }
}

/// Where the tokens of a pass lie in the source: for each token before the
/// end-of-input token, in order, the bounds `(a, b)` of the slice `s[a..b)`
/// that the step which emitted it consumed.
pub open spec fn token_spans(s: Seq<char>, pos: int, line: nat) -> Seq<(int, int)>
    decreases s.len() - pos,
    via token_spans_decreases
{
    if pos < 0 || pos >= s.len() {
        Seq::empty()
    } else {
        let step = scan_step(s, pos, line);
        let rest = token_spans(s, step.next, line_after(s, pos, step.next, line));
        if step.tokens.len() == 1 {
            seq![(pos, step.next)] + rest
        } else {
            rest
        }
    }
}

#[via_fn]
proof fn token_spans_decreases(s: Seq<char>, pos: int, line: nat) {
    if 0 <= pos < s.len() {
        lemma_step_advances(s, pos, line);
    }
}

/// Every token of a pass but the last was matched from its span: the
/// lexeme is the span's text (for a string, the text between its quotes)
/// and the line is that of the span's first character. The spans are not
/// empty, lie inside the source behind the starting position, and follow
/// one another without overlap: the tokens are in source order.
pub proof fn lemma_tokens_follow_source(s: Seq<char>, pos: int, line: nat)
    requires
        0 <= pos <= s.len(),
    ensures
        ({
            let tokens = scan_from(s, pos, line).tokens;
            let spans = token_spans(s, pos, line);
            &&& spans.len() == tokens.len() - 1
            &&& forall|i: int|
                0 <= i < spans.len() ==> {
                    &&& pos <= (#[trigger] spans[i]).0 < spans[i].1 <= s.len()
                    &&& matched_at(s, tokens[i], spans[i].0, spans[i].1)
                    &&& tokens[i].line == line + newlines(s, pos, spans[i].0)
                }
            &&& forall|i: int, j: int|
                0 <= i < j < spans.len() ==> (#[trigger] spans[i]).1 <= (#[trigger] spans[j]).0
        }),
    decreases s.len() - pos,
{
    if pos < s.len() {
        let step = scan_step(s, pos, line);
        let next_line = line_after(s, pos, step.next, line);
        let tokens = scan_from(s, pos, line).tokens;
        let spans = token_spans(s, pos, line);
        let rest_tokens = scan_from(s, step.next, next_line).tokens;
        let rest_spans = token_spans(s, step.next, next_line);
        lemma_step_token(s, pos, line);
        lemma_tokens_follow_source(s, step.next, next_line);
        let k = step.tokens.len() as int;
        assert forall|i: int| 0 <= i < spans.len() implies {
            &&& pos <= (#[trigger] spans[i]).0 < spans[i].1 <= s.len()
            &&& matched_at(s, tokens[i], spans[i].0, spans[i].1)
            &&& tokens[i].line == line + newlines(s, pos, spans[i].0)
        } by {
            if i < k {
                assert(tokens[i] == step.tokens[0]);
                assert(spans[i] == (pos, step.next));
            } else {
                assert(tokens[i] == rest_tokens[i - k]);
                assert(spans[i] == rest_spans[i - k]);
                lemma_newlines_split(s, pos, step.next, spans[i].0);
            }
        }
        assert forall|i: int, j: int| 0 <= i < j < spans.len() implies (#[trigger] spans[i]).1 <= (
        #[trigger] spans[j]).0 by {
            assert(spans[j] == rest_spans[j - k]);
            if i < k {
                assert(spans[i] == (pos, step.next));
            } else {
                assert(spans[i] == rest_spans[i - k]);
            }
        }
    }
}

} // verus!
