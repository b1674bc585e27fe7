//! General properties of the lexer, stated over the specification-level
//! state machine and proved once and for all.

use vstd::prelude::*;
use crate::classify::{is_punct_char, is_whitespace_char, spec_punct_token};
use crate::machine::{
    spec_lex_line, spec_run, spec_tokenize, spec_tokenize_from, LexState,
};
use crate::token::{LexError, SpecToken, Token};
use crate::tokenizer::lex_result_view;

verus! {

/// One token per punctuation character of `line`, in input order; every
/// other character contributes nothing.
pub open spec fn punct_tokens_of_line(line: Seq<char>) -> Seq<SpecToken>
    decreases line.len(),
{
    if line.len() == 0 {
        Seq::empty()
    } else {
        punct_tokens_of_line(line.drop_last()) + (if is_punct_char(line.last()) {
            seq![spec_punct_token(line.last())]
        } else {
            Seq::empty()
        })
    }
}

/// The punctuation tokens of every line of `lines`, in input order.
pub open spec fn punct_tokens_of_lines(lines: Seq<Seq<char>>) -> Seq<SpecToken>
    decreases lines.len(),
{
    if lines.len() == 0 {
        Seq::empty()
    } else {
        punct_tokens_of_lines(lines.drop_last()) + punct_tokens_of_line(lines.last())
    }
}

/// On a line of punctuation and whitespace alone the scanner stays idle and
/// emits exactly the punctuation tokens, in order.
proof fn lemma_run_punct_whitespace(line: Seq<char>, n: int)
    requires
        0 <= n <= line.len(),
        forall|j: int|
            0 <= j < line.len() ==> is_punct_char(#[trigger] line[j]) || is_whitespace_char(
                line[j],
            ),
    ensures
        spec_run(LexState::Idle, line, n) == Ok::<(LexState, Seq<SpecToken>), LexError>(
            (LexState::Idle, punct_tokens_of_line(line.take(n))),
        ),
    decreases n,
{
    if n == 0 {
        assert(line.take(0) =~= Seq::<char>::empty());
        assert(punct_tokens_of_line(line.take(0)) =~= Seq::<SpecToken>::empty());
    } else {
        lemma_run_punct_whitespace(line, n - 1);
        assert(line.take(n).drop_last() =~= line.take(n - 1));
        assert(line.take(n).last() == line[n - 1]);
        if is_punct_char(line[n - 1]) {
        } else {
            assert(punct_tokens_of_line(line.take(n)) =~= punct_tokens_of_line(line.take(n - 1))
                + Seq::<SpecToken>::empty());
            assert(punct_tokens_of_line(line.take(n)) =~= punct_tokens_of_line(line.take(n - 1)));
        }
    }
}

/// The first `k` lines of a punctuation-and-whitespace input scan without
/// error to exactly their punctuation tokens.
proof fn lemma_tokenize_punct_whitespace(lines: Seq<Seq<char>>, k: int)
    requires
        0 <= k <= lines.len(),
        forall|i: int, j: int|
            0 <= i < lines.len() && 0 <= j < lines[i].len() ==> is_punct_char(
                #[trigger] lines[i][j],
            ) || is_whitespace_char(lines[i][j]),
    ensures
        spec_tokenize_from(LexState::Idle, lines, k) == Ok::<Seq<SpecToken>, LexError>(
            punct_tokens_of_lines(lines.take(k)),
        ),
    decreases k,
{
    if k == 0 {
        assert(lines.take(0) =~= Seq::<Seq<char>>::empty());
        assert(punct_tokens_of_lines(lines.take(0)) =~= Seq::<SpecToken>::empty());
    } else {
        lemma_tokenize_punct_whitespace(lines, k - 1);
        let line = lines[k - 1];
        lemma_run_punct_whitespace(line, line.len() as int);
        assert(line.take(line.len() as int) =~= line);
        assert(spec_lex_line(LexState::Idle, line) == Ok::<Seq<SpecToken>, LexError>(
            punct_tokens_of_line(line) + Seq::<SpecToken>::empty(),
        ));
        assert(punct_tokens_of_line(line) + Seq::<SpecToken>::empty() =~= punct_tokens_of_line(
            line,
        ));
        assert(lines.take(k).drop_last() =~= lines.take(k - 1));
        assert(lines.take(k).last() == line);
    }
}

/// An input consisting solely of the five punctuation characters and
/// whitespace scans without error, and its token sequence carries exactly
/// one punctuation token per punctuation character, in input order, with
/// whitespace contributing no tokens.
pub proof fn lemma_punctuation_whitespace_only(lines: Seq<Seq<char>>)
    requires
        forall|i: int, j: int|
            0 <= i < lines.len() && 0 <= j < lines[i].len() ==> is_punct_char(
                #[trigger] lines[i][j],
            ) || is_whitespace_char(lines[i][j]),
    ensures
        spec_tokenize(lines) == Ok::<Seq<SpecToken>, LexError>(punct_tokens_of_lines(lines)),
{
    lemma_tokenize_punct_whitespace(lines, lines.len() as int);
    assert(lines.take(lines.len() as int) =~= lines);
}

/// A prefix scan reads nothing past its `k` lines: inputs that agree on
/// those lines scan alike.
proof fn lemma_tokenize_from_prefix_agree(
    st: LexState,
    lines1: Seq<Seq<char>>,
    lines2: Seq<Seq<char>>,
    k: int,
)
    requires
        forall|i: int| 0 <= i < k ==> lines1[i] == lines2[i],
    ensures
        spec_tokenize_from(st, lines1, k) == spec_tokenize_from(st, lines2, k),
    decreases k,
{
    if k > 0 {
        lemma_tokenize_from_prefix_agree(st, lines1, lines2, k - 1);
    }
}

/// A line break flushes: the tokens of an input extended by one more line
/// are the tokens of the earlier lines followed by the tokens of the new
/// line scanned from the idle state. No lexeme ever continues across the
/// break, so a literal split over two lines becomes two separate tokens.
pub proof fn lemma_line_break_flushes(lines: Seq<Seq<char>>, extra: Seq<char>)
    ensures
        spec_tokenize(lines.push(extra)) == (match spec_tokenize(lines) {
            Err(e) => Err::<Seq<SpecToken>, LexError>(e),
            Ok(toks) => match spec_lex_line(LexState::Idle, extra) {
                Err(e) => Err::<Seq<SpecToken>, LexError>(e),
                Ok(line_toks) => Ok::<Seq<SpecToken>, LexError>(toks + line_toks),
            },
        }),
{
    let pushed = lines.push(extra);
    lemma_tokenize_from_prefix_agree(LexState::Idle, pushed, lines, lines.len() as int);
    assert(pushed[pushed.len() - 1] == extra);
}

/// Scanning is deterministic: any two outcomes that [`crate::tokenizer::lex`]
/// may return for the same input have the same model — the same token
/// sequence, or the same error.
pub proof fn lemma_lex_deterministic(
    lines: Seq<Seq<char>>,
    r1: Result<Vec<Token>, LexError>,
    r2: Result<Vec<Token>, LexError>,
)
    requires
        lex_result_view(r1) == spec_tokenize(lines),
        lex_result_view(r2) == spec_tokenize(lines),
    ensures
        lex_result_view(r1) == lex_result_view(r2),
{
}

} // verus!
