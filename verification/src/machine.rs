//! The character-level state machine, as a mathematical specification.
//!
//! [`spec_step`] is a single exhaustive case split over (current state,
//! current character); [`spec_run`] folds it over a prefix of a line;
//! [`spec_flush`] gives the token a line end forces out of a pending lexeme;
//! [`spec_tokenize`] strings whole lines together, each started in the idle
//! state. The executable scanner in [`crate::tokenizer`] is proved to follow
//! these functions exactly.

use vstd::prelude::*;
use crate::classify::{
    char_is_alphabetic, char_is_alphanumeric, is_integer_continue_char, is_punct_char,
    is_whitespace_char, spec_digit_in_radix, spec_punct_token, spec_string_token,
};
use crate::token::{LexError, SpecToken};

verus! {

/// The scanner's mode between characters.
///
/// `InIdentifier` carries the accumulated lexeme, always non-empty.
/// `InInteger` carries the accumulated magnitude and the active radix;
/// `radix` is `None` only immediately after a leading `0`, before the next
/// character settles whether a radix prefix or a decimal literal follows.
pub enum LexState {
    Idle,
    InIdentifier(Seq<char>),
    InInteger { number: u64, radix: Option<u64> },
}

/// What one character does to the scanner: either a new state together with
/// the tokens emitted (zero, one, or two), or a lexical error.
pub enum StepResult {
    Next { state: LexState, emitted: Seq<SpecToken> },
    Fail { error: LexError },
}

/// One digit folded into an accumulating magnitude: `radix * number + digit`,
/// wrapping modulo 2^64 so that the magnitude stays an unsigned 64-bit value.
pub open spec fn spec_accumulate(number: u64, radix: u64, digit: u64) -> u64 {
    ((radix * number + digit) % 0x1_0000_0000_0000_0000) as u64
}

/// The transition taken from state `st` on character `c`.
///
/// Punctuation always flushes any pending lexeme and emits its own token;
/// whitespace flushes without emitting anything of its own; the remaining
/// cases grow a lexeme or reject the character. Inside a numeric literal the
/// digit conversion [`spec_digit_in_radix`] alone decides validity, so a
/// digit at or above the active radix is an error, never silently folded in.
pub open spec fn spec_step(st: LexState, c: char) -> StepResult {
    match st {
        LexState::Idle => {
            if is_punct_char(c) {
                StepResult::Next { state: LexState::Idle, emitted: seq![spec_punct_token(c)] }
            } else if is_whitespace_char(c) {
                StepResult::Next { state: LexState::Idle, emitted: Seq::empty() }
            } else if c == '0' {
                StepResult::Next {
                    state: LexState::InInteger { number: 0, radix: None },
                    emitted: Seq::empty(),
                }
            } else if '1' <= c && c <= '9' {
                StepResult::Next {
                    state: LexState::InInteger {
                        number: (c as int - 48) as u64,
                        radix: Some(10),
                    },
                    emitted: Seq::empty(),
                }
            } else if char_is_alphabetic(c) || c == '_' {
                StepResult::Next { state: LexState::InIdentifier(seq![c]), emitted: Seq::empty() }
            } else {
                StepResult::Fail { error: LexError::UnknownCharacter(c) }
            }
        },
        LexState::InIdentifier(acc) => {
            if is_punct_char(c) {
                StepResult::Next {
                    state: LexState::Idle,
                    emitted: seq![spec_string_token(acc), spec_punct_token(c)],
                }
            } else if is_whitespace_char(c) {
                StepResult::Next { state: LexState::Idle, emitted: seq![spec_string_token(acc)] }
            } else if char_is_alphanumeric(c) || c == '_' {
                StepResult::Next {
                    state: LexState::InIdentifier(acc.push(c)),
                    emitted: Seq::empty(),
                }
            } else {
                StepResult::Fail { error: LexError::UnknownCharacter(c) }
            }
        },
        LexState::InInteger { number, radix } => {
            if is_punct_char(c) {
                StepResult::Next {
                    state: LexState::Idle,
                    emitted: seq![SpecToken::Integer(number), spec_punct_token(c)],
                }
            } else if is_whitespace_char(c) {
                StepResult::Next {
                    state: LexState::Idle,
                    emitted: seq![SpecToken::Integer(number)],
                }
            } else if is_integer_continue_char(c) {
                match radix {
                    Some(r) => match spec_digit_in_radix(c, r) {
                        Some(d) => StepResult::Next {
                            state: LexState::InInteger {
                                number: spec_accumulate(number, r, d),
                                radix: Some(r),
                            },
                            emitted: Seq::empty(),
                        },
                        None => StepResult::Fail { error: LexError::UnexpectedCharacter(c) },
                    },
                    None => {
                        if '0' <= c && c <= '9' {
                            StepResult::Next {
                                state: LexState::InInteger {
                                    number: spec_accumulate(number, 10, (c as int - 48) as u64),
                                    radix: Some(10),
                                },
                                emitted: Seq::empty(),
                            }
                        } else if c == 'b' {
                            StepResult::Next {
                                state: LexState::InInteger { number, radix: Some(2) },
                                emitted: Seq::empty(),
                            }
                        } else if c == 'o' {
                            StepResult::Next {
                                state: LexState::InInteger { number, radix: Some(8) },
                                emitted: Seq::empty(),
                            }
                        } else if c == 'x' {
                            StepResult::Next {
                                state: LexState::InInteger { number, radix: Some(16) },
                                emitted: Seq::empty(),
                            }
                        } else {
                            StepResult::Fail { error: LexError::UnexpectedCharacter(c) }
                        }
                    },
                }
            } else if char_is_alphabetic(c) {
                StepResult::Fail { error: LexError::UnexpectedCharacter(c) }
            } else {
                StepResult::Fail { error: LexError::UnknownCharacter(c) }
            }
        },
    }
}

/// The state machine folded over the first `n` characters of `line`,
/// starting from `st`: the state reached and every token emitted on the way,
/// or the first error.
pub open spec fn spec_run(st: LexState, line: Seq<char>, n: int) -> Result<
    (LexState, Seq<SpecToken>),
    LexError,
>
    decreases n,
{
    if n <= 0 {
        Ok((st, Seq::empty()))
    } else {
        match spec_run(st, line, n - 1) {
            Err(e) => Err(e),
            Ok((mid, toks)) => match spec_step(mid, line[n - 1]) {
                StepResult::Next { state, emitted } => Ok((state, toks + emitted)),
                StepResult::Fail { error } => Err(error),
            },
        }
    }
}

/// The token a line end forces out of a pending lexeme: nothing when idle,
/// the classified lexeme mid-identifier, the accumulated magnitude
/// mid-integer. The state then resets to idle unconditionally.
pub open spec fn spec_flush(st: LexState) -> Seq<SpecToken> {
    match st {
        LexState::Idle => Seq::empty(),
        LexState::InIdentifier(acc) => seq![spec_string_token(acc)],
        LexState::InInteger { number, radix: _ } => seq![SpecToken::Integer(number)],
    }
}

/// One whole line scanned from state `st`, the pending lexeme flushed at its
/// end: every token the line contributes, or the first error.
pub open spec fn spec_lex_line(st: LexState, line: Seq<char>) -> Result<Seq<SpecToken>, LexError> {
    match spec_run(st, line, line.len() as int) {
        Err(e) => Err(e),
        Ok((end, toks)) => Ok(toks + spec_flush(end)),
    }
}

/// The first `k` lines scanned in order: the first starts in `st`, every
/// later one in the idle state the preceding line end left behind. The
/// first error aborts the whole scan with no tokens.
pub open spec fn spec_tokenize_from(st: LexState, lines: Seq<Seq<char>>, k: int) -> Result<
    Seq<SpecToken>,
    LexError,
>
    decreases k,
{
    if k <= 0 {
        Ok(Seq::empty())
    } else {
        match spec_tokenize_from(st, lines, k - 1) {
            Err(e) => Err(e),
            Ok(toks) => {
                let start = if k == 1 {
                    st
                } else {
                    LexState::Idle
                };
                match spec_lex_line(start, lines[k - 1]) {
                    Err(e) => Err(e),
                    Ok(line_toks) => Ok(toks + line_toks),
                }
            },
        }
    }
}

/// The full scan of `lines` from the initial idle state: the complete token
/// sequence in source order, or the first error.
pub open spec fn spec_tokenize(lines: Seq<Seq<char>>) -> Result<Seq<SpecToken>, LexError> {
    spec_tokenize_from(LexState::Idle, lines, lines.len() as int)
}

/// The input lines as character sequences.
pub open spec fn lines_view(lines: Seq<String>) -> Seq<Seq<char>> {
    lines.map_values(|l: String| l@)
}

/// An error reached within the first `m` characters stands for every longer
/// prefix as well: the scan never recovers.
pub proof fn lemma_run_error_persists(st: LexState, line: Seq<char>, m: int, n: int, e: LexError)
    requires
        0 <= m <= n,
        spec_run(st, line, m) == Err::<(LexState, Seq<SpecToken>), LexError>(e),
    ensures
        spec_run(st, line, n) == Err::<(LexState, Seq<SpecToken>), LexError>(e),
    decreases n,
{
    if n > m {
        lemma_run_error_persists(st, line, m, n - 1, e);
    }
}

/// An error reached within the first `m` lines stands for every longer
/// prefix of the input as well.
pub proof fn lemma_tokenize_error_persists(
    st: LexState,
    lines: Seq<Seq<char>>,
    m: int,
    k: int,
    e: LexError,
)
    requires
        0 <= m <= k,
        spec_tokenize_from(st, lines, m) == Err::<Seq<SpecToken>, LexError>(e),
    ensures
        spec_tokenize_from(st, lines, k) == Err::<Seq<SpecToken>, LexError>(e),
    decreases k,
{
    if k > m {
        lemma_tokenize_error_persists(st, lines, m, k - 1, e);
    }
}

} // verus!
