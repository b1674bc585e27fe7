//! The token type emitted by the lexer, its mathematical model, and the
//! lexical error type.

use vstd::prelude::*;

verus! {

/// A single lexical token, as handed to callers.
///
/// `Identifier` carries the lexeme text; `Integer` carries the accumulated
/// unsigned 64-bit magnitude of a numeric literal.
#[derive(Debug, PartialEq, Eq)]
pub enum Token {
    OpenBrace,
    CloseBrace,
    OpenParenthesis,
    CloseParenthesis,
    Semicolon,
    IntKeyword,
    ReturnKeyword,
    Identifier(String),
    Integer(u64),
}

/// The mathematical model of a token: identical to [`Token`] except that the
/// identifier text is a sequence of characters. Contracts and the
/// specification-level state machine speak of this type.
pub enum SpecToken {
    OpenBrace,
    CloseBrace,
    OpenParenthesis,
    CloseParenthesis,
    Semicolon,
    IntKeyword,
    ReturnKeyword,
    Identifier(Seq<char>),
    Integer(u64),
}

impl View for Token {
    type V = SpecToken;

    open spec fn view(&self) -> SpecToken {
        match self {
            Token::OpenBrace => SpecToken::OpenBrace,
            Token::CloseBrace => SpecToken::CloseBrace,
            Token::OpenParenthesis => SpecToken::OpenParenthesis,
            Token::CloseParenthesis => SpecToken::CloseParenthesis,
            Token::Semicolon => SpecToken::Semicolon,
            Token::IntKeyword => SpecToken::IntKeyword,
            Token::ReturnKeyword => SpecToken::ReturnKeyword,
            Token::Identifier(name) => SpecToken::Identifier(name@),
            Token::Integer(value) => SpecToken::Integer(*value),
        }
    }
}

/// The model of a token vector: each token replaced by its model.
pub open spec fn tokens_view(tokens: Seq<Token>) -> Seq<SpecToken> {
    tokens.map_values(|t: Token| t@)
}

/// A lexical error: the scan aborts at the first offending character, which
/// the error carries.
///
/// `UnknownCharacter` reports a character that no rule classifies at all;
/// `UnexpectedCharacter` reports a character that is recognized but invalid
/// where it stands (a digit out of range for the active radix, a stray
/// letter inside a numeric literal, or a non-punctuation character handed to
/// [`crate::tokenizer::primitive_to_token`]).
#[derive(Debug, Clone, Copy, PartialEq, Eq)]
pub enum LexError {
    UnknownCharacter(char),
    UnexpectedCharacter(char),
}

} // verus!
