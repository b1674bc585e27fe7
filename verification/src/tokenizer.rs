//! The executable tokenizer, proved to follow the state machine of
//! [`crate::machine`] step for step.

use vstd::prelude::*;
use vstd::string::StrSliceExecFns;
use crate::classify::{
    is_alphabetic, is_alphanumeric, is_integer_continue, is_punct_char, is_whitespace,
    digit_in_radix, spec_punct_token, spec_string_token,
};
use crate::machine::{
    lines_view, spec_accumulate, spec_flush, spec_lex_line, spec_run, spec_step, spec_tokenize,
    spec_tokenize_from, LexState, StepResult,
};
use crate::token::{tokens_view, LexError, SpecToken, Token};

verus! {

/// Relies on `String::push`: appends the given character to the end of the
/// string.
pub assume_specification[ String::push ](s: &mut String, c: char)
    ensures
        final(s)@ == old(s)@.push(c),
;

/// The scanner's mode between characters; its model is
/// [`crate::machine::LexState`].
///
/// `ReadIdentifier` accumulates an identifier or keyword lexeme;
/// `ReadInteger` accumulates a numeric literal, with `radix` still `None`
/// right after a leading `0`, before the next character picks a radix
/// prefix or continues a decimal literal.
#[derive(Debug)]
pub enum TokenizerState {
    ConsumeNextChar,
    ReadIdentifier(String),
    ReadInteger { number: u64, radix: Option<u64> },
}

impl View for TokenizerState {
    type V = LexState;

    open spec fn view(&self) -> LexState {
        match self {
            TokenizerState::ConsumeNextChar => LexState::Idle,
            TokenizerState::ReadIdentifier(acc) => LexState::InIdentifier(acc@),
            TokenizerState::ReadInteger { number, radix } => LexState::InInteger {
                number: *number,
                radix: *radix,
            },
        }
    }
}

/// Maps exactly the five punctuation characters to their tokens; any other
/// character is rejected with an unexpected-character error.
pub fn primitive_to_token(c: char) -> (r: Result<Token, LexError>)
    ensures
        (match r {
            Ok(t) => is_punct_char(c) && t@ == spec_punct_token(c),
            Err(e) => !is_punct_char(c) && e == LexError::UnexpectedCharacter(c),
        }),
{
    match c {
        '{' => Ok(Token::OpenBrace),
        '}' => Ok(Token::CloseBrace),
        '(' => Ok(Token::OpenParenthesis),
        ')' => Ok(Token::CloseParenthesis),
        ';' => Ok(Token::Semicolon),
        _ => Err(LexError::UnexpectedCharacter(c)),
    }
}

/// Classifies a completed lexeme: the exact spellings `Int` and `Return`
/// become keyword tokens, every other lexeme an identifier token.
pub fn string_to_token(s: &str) -> (t: Token)
    ensures
        t@ == spec_string_token(s@),
{
    let owned = s.to_owned();
    if owned == "Int".to_owned() {
        Token::IntKeyword
    } else if owned == "Return".to_owned() {
        Token::ReturnKeyword
    } else {
        Token::Identifier(owned)
    }
}

/// One digit folded into an accumulating magnitude, wrapping modulo 2^64;
/// equal to [`spec_accumulate`].
fn accumulate(number: u64, radix: u64, digit: u64) -> (r: u64)
    ensures
        r == spec_accumulate(number, radix, digit),
{
    proof {
        vstd::arithmetic::mul::lemma_mul_upper_bound(
            radix as int,
            0xFFFF_FFFF_FFFF_FFFF,
            number as int,
            0xFFFF_FFFF_FFFF_FFFF,
        );
    }
    let wide: u128 = (radix as u128) * (number as u128) + (digit as u128);
    (wide % 0x1_0000_0000_0000_0000u128) as u64
}

/// The model of a scan's outcome: a successful token vector replaced by the
/// sequence of token models, an error kept as it is.
pub open spec fn lex_result_view(r: Result<Vec<Token>, LexError>) -> Result<
    Seq<SpecToken>,
    LexError,
> {
    match r {
        Ok(toks) => Ok(tokens_view(toks@)),
        Err(e) => Err(e),
    }
}

/// The tokenizer: owns the scanner state for the lifetime of a scan. Its
/// model is the [`LexState`] of its state field.
pub struct Tokenizer {
    state: TokenizerState,
}

impl View for Tokenizer {
    type V = LexState;

    closed spec fn view(&self) -> LexState {
        self.state@
    }
}

impl Tokenizer {
    /// A fresh tokenizer, in the idle state.
    pub fn new() -> (t: Tokenizer)
        ensures
            t@ == LexState::Idle,
    {
        Tokenizer { state: TokenizerState::ConsumeNextChar }
    }

    /// Consumes one character: takes the transition [`spec_step`] prescribes,
    /// appending whatever tokens it emits, or reports its error with the
    /// state and the token vector left unchanged.
    fn step(&mut self, c: char, tokens: &mut Vec<Token>) -> (r: Result<(), LexError>)
        ensures
            (match spec_step(old(self)@, c) {
                StepResult::Next { state, emitted } => {
                    &&& r is Ok
                    &&& final(self)@ == state
                    &&& tokens_view(final(tokens)@) == tokens_view(old(tokens)@) + emitted
                },
                StepResult::Fail { error } => {
                    &&& r == Err::<(), LexError>(error)
                    &&& final(self)@ == old(self)@
                    &&& final(tokens)@ == old(tokens)@
                },
            }),
    {
        let mut st = TokenizerState::ConsumeNextChar;
        core::mem::swap(&mut st, &mut self.state);
        let r = match st {
            TokenizerState::ConsumeNextChar => {
                match primitive_to_token(c) {
                    Ok(t) => {
                        tokens.push(t);
                        Ok(())
                    },
                    Err(_) => {
                        if is_whitespace(c) {
                            Ok(())
                        } else {
                            let code = c as u32;
                            if code == 48 {
                                self.state = TokenizerState::ReadInteger {
                                    number: 0,
                                    radix: None,
                                };
                                Ok(())
                            } else if 49 <= code && code <= 57 {
                                self.state = TokenizerState::ReadInteger {
                                    number: (code - 48) as u64,
                                    radix: Some(10),
                                };
                                Ok(())
                            } else if is_alphabetic(c) || code == 95 {
                                let mut acc = String::new();
                                acc.push(c);
                                self.state = TokenizerState::ReadIdentifier(acc);
                                Ok(())
                            } else {
                                Err(LexError::UnknownCharacter(c))
                            }
                        }
                    },
                }
            },
            TokenizerState::ReadIdentifier(mut acc) => {
                match primitive_to_token(c) {
                    Ok(t) => {
                        tokens.push(string_to_token(acc.as_str()));
                        tokens.push(t);
                        Ok(())
                    },
                    Err(_) => {
                        if is_whitespace(c) {
                            tokens.push(string_to_token(acc.as_str()));
                            Ok(())
                        } else if is_alphanumeric(c) || c as u32 == 95 {
                            acc.push(c);
                            self.state = TokenizerState::ReadIdentifier(acc);
                            Ok(())
                        } else {
                            self.state = TokenizerState::ReadIdentifier(acc);
                            Err(LexError::UnknownCharacter(c))
                        }
                    },
                }
            },
            TokenizerState::ReadInteger { number, radix } => {
                match primitive_to_token(c) {
                    Ok(t) => {
                        tokens.push(Token::Integer(number));
                        tokens.push(t);
                        Ok(())
                    },
                    Err(_) => {
                        if is_whitespace(c) {
                            tokens.push(Token::Integer(number));
                            Ok(())
                        } else if is_integer_continue(c) {
                            match radix {
                                Some(r) => {
                                    match digit_in_radix(c, r) {
                                        Some(d) => {
                                            self.state = TokenizerState::ReadInteger {
                                                number: accumulate(number, r, d),
                                                radix: Some(r),
                                            };
                                            Ok(())
                                        },
                                        None => {
                                            self.state = TokenizerState::ReadInteger {
                                                number,
                                                radix: Some(r),
                                            };
                                            Err(LexError::UnexpectedCharacter(c))
                                        },
                                    }
                                },
                                None => {
                                    let code = c as u32;
                                    if 48 <= code && code <= 57 {
                                        self.state = TokenizerState::ReadInteger {
                                            number: accumulate(number, 10, (code - 48) as u64),
                                            radix: Some(10),
                                        };
                                        Ok(())
                                    } else if code == 98 {
                                        self.state = TokenizerState::ReadInteger {
                                            number,
                                            radix: Some(2),
                                        };
                                        Ok(())
                                    } else if code == 111 {
                                        self.state = TokenizerState::ReadInteger {
                                            number,
                                            radix: Some(8),
                                        };
                                        Ok(())
                                    } else if code == 120 {
                                        self.state = TokenizerState::ReadInteger {
                                            number,
                                            radix: Some(16),
                                        };
                                        Ok(())
                                    } else {
                                        self.state = TokenizerState::ReadInteger {
                                            number,
                                            radix: None,
                                        };
                                        Err(LexError::UnexpectedCharacter(c))
                                    }
                                },
                            }
                        } else if is_alphabetic(c) {
                            self.state = TokenizerState::ReadInteger { number, radix };
                            Err(LexError::UnexpectedCharacter(c))
                        } else {
                            self.state = TokenizerState::ReadInteger { number, radix };
                            Err(LexError::UnknownCharacter(c))
                        }
                    },
                }
            },
        };
        proof {
            assert(tokens_view(tokens@) =~= tokens_view(old(tokens)@) + (match spec_step(
                old(self)@,
                c,
            ) {
                StepResult::Next { state: _, emitted } => emitted,
                StepResult::Fail { .. } => Seq::<SpecToken>::empty(),
            }));
        }
        r
    }

    /// Flushes the pending lexeme, as a line end does: nothing when idle,
    /// the classified lexeme mid-identifier, the accumulated magnitude
    /// mid-integer; the state resets to idle unconditionally.
    fn flush(&mut self, tokens: &mut Vec<Token>)
        ensures
            final(self)@ == LexState::Idle,
            tokens_view(final(tokens)@) == tokens_view(old(tokens)@) + spec_flush(old(self)@),
    {
        let mut st = TokenizerState::ConsumeNextChar;
        core::mem::swap(&mut st, &mut self.state);
        match st {
            TokenizerState::ConsumeNextChar => {},
            TokenizerState::ReadIdentifier(acc) => {
                tokens.push(string_to_token(acc.as_str()));
            },
            TokenizerState::ReadInteger { number, radix: _ } => {
                tokens.push(Token::Integer(number));
            },
        }
        proof {
            assert(tokens_view(tokens@) =~= tokens_view(old(tokens)@) + spec_flush(old(self)@));
        }
    }

    /// Scans one whole line from the current state, flushing the pending
    /// lexeme at its end, exactly as [`spec_lex_line`] prescribes. On
    /// success the emitted tokens are appended and the tokenizer is idle;
    /// on error nothing is promised of the token vector, whose content the
    /// caller discards.
    fn lex_line(&mut self, line: &str, tokens: &mut Vec<Token>) -> (r: Result<(), LexError>)
        ensures
            (match r {
                Ok(()) => spec_lex_line(old(self)@, line@) matches Ok(delta) && final(self)@
                    == LexState::Idle && tokens_view(final(tokens)@) == tokens_view(old(tokens)@)
                    + delta,
                Err(e) => spec_lex_line(old(self)@, line@) == Err::<Seq<SpecToken>, LexError>(e),
            }),
    {
        let ghost start = self@;
        let ghost pre = tokens_view(tokens@);
        let n = line.unicode_len();
        let mut ci: usize = 0;
        while ci < n
            invariant
                ci <= n,
                n == line@.len(),
                start == old(self)@,
                (spec_run(start, line@, ci as int) matches Ok(p) && p.0 == self@
                    && tokens_view(tokens@) == pre + p.1),
            decreases n - ci,
        {
            let c = line.get_char(ci);
            match self.step(c, tokens) {
                Ok(()) => {
                    proof {
                        let p = (spec_run(start, line@, ci as int))->Ok_0;
                        let em = (spec_step(p.0, line@[ci as int]))->Next_emitted;
                        assert(pre + (p.1 + em) =~= (pre + p.1) + em);
                        assert(spec_run(start, line@, ci + 1) matches Ok(q) && q.0 == self@
                            && tokens_view(tokens@) == pre + q.1);
                    }
                },
                Err(e) => {
                    proof {
                        assert(spec_run(start, line@, ci + 1) == Err::<
                            (LexState, Seq<SpecToken>),
                            LexError,
                        >(e));
                        crate::machine::lemma_run_error_persists(
                            start,
                            line@,
                            ci + 1,
                            line@.len() as int,
                            e,
                        );
                        assert(spec_lex_line(start, line@) == Err::<Seq<SpecToken>, LexError>(e));
                    }
                    return Err(e);
                },
            }
            ci += 1;
        }
        self.flush(tokens);
        proof {
            let p = (spec_run(start, line@, n as int))->Ok_0;
            assert(spec_lex_line(start, line@) == Ok::<Seq<SpecToken>, LexError>(
                p.1 + spec_flush(p.0),
            ));
            assert(tokens_view(tokens@) =~= pre + (p.1 + spec_flush(p.0)));
        }
        Ok(())
    }

    /// Scans `lines` in order, one character at a time, flushing the pending
    /// lexeme at each line end: the full token sequence in source order, or
    /// the first error with no tokens at all. The result is exactly what
    /// [`spec_tokenize_from`] prescribes for the starting state; after a
    /// successful scan of at least one line the tokenizer is idle again.
    pub fn tokenize(&mut self, lines: &Vec<String>) -> (r: Result<Vec<Token>, LexError>)
        ensures
            lex_result_view(r) == spec_tokenize_from(
                old(self)@,
                lines_view(lines@),
                lines@.len() as int,
            ),
            r is Ok && lines@.len() > 0 ==> final(self)@ == LexState::Idle,
            r is Ok && lines@.len() == 0 ==> final(self)@ == old(self)@,
    {
        let ghost st0 = self@;
        let ghost lv = lines_view(lines@);
        let mut tokens: Vec<Token> = Vec::new();
        proof {
            assert(tokens_view(tokens@) =~= Seq::<SpecToken>::empty());
        }
        let mut li: usize = 0;
        while li < lines.len()
            invariant
                li <= lines@.len(),
                st0 == old(self)@,
                lv == lines_view(lines@),
                spec_tokenize_from(st0, lv, li as int) == Ok::<Seq<SpecToken>, LexError>(
                    tokens_view(tokens@),
                ),
                self@ == (if li == 0 {
                    st0
                } else {
                    LexState::Idle
                }),
            decreases lines@.len() - li,
        {
            let line: &String = &lines[li];
            let ghost start = self@;
            let ghost pre = tokens_view(tokens@);
            match self.lex_line(line.as_str(), &mut tokens) {
                Ok(()) => {
                    proof {
                        let delta = (spec_lex_line(start, lv[li as int]))->Ok_0;
                        assert(pre + delta =~= tokens_view(tokens@));
                        assert(spec_tokenize_from(st0, lv, li + 1) == Ok::<
                            Seq<SpecToken>,
                            LexError,
                        >(tokens_view(tokens@)));
                    }
                },
                Err(e) => {
                    proof {
                        assert(spec_tokenize_from(st0, lv, li + 1) == Err::<
                            Seq<SpecToken>,
                            LexError,
                        >(e));
                        crate::machine::lemma_tokenize_error_persists(
                            st0,
                            lv,
                            li + 1,
                            lv.len() as int,
                            e,
                        );
                        assert(lv.len() == lines@.len());
                        assert(spec_tokenize_from(st0, lv, lines@.len() as int) == Err::<
                            Seq<SpecToken>,
                            LexError,
                        >(e));
                    }
                    return Err(e);
                },
            }
            li += 1;
        }
        Ok(tokens)
    }
}

/// Runs a fresh tokenizer over `lines`: the full token sequence of
/// [`spec_tokenize`], or the first lexical error with no tokens at all.
pub fn lex(lines: &Vec<String>) -> (r: Result<Vec<Token>, LexError>)
    ensures
        lex_result_view(r) == spec_tokenize(lines_view(lines@)),
{
    let mut tokenizer = Tokenizer::new();
    tokenizer.tokenize(lines)
}

} // verus!
