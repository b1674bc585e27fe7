use lexer::token::{LexError, Token};
use lexer::tokenizer::{lex, primitive_to_token, string_to_token, Tokenizer};

fn lines(xs: &[&str]) -> Vec<String> {
    xs.iter().map(|s| s.to_string()).collect()
}

fn lex_one(s: &str) -> Result<Vec<Token>, LexError> {
    lex(&lines(&[s]))
}

fn ident(s: &str) -> Token {
    Token::Identifier(s.to_string())
}

#[test]
fn punctuation_only_one_token_per_character() {
    assert_eq!(
        lex_one("{ } ( ) ;"),
        Ok(vec![
            Token::OpenBrace,
            Token::CloseBrace,
            Token::OpenParenthesis,
            Token::CloseParenthesis,
            Token::Semicolon,
        ])
    );
}

#[test]
fn punctuation_without_spaces_keeps_input_order() {
    assert_eq!(
        lex_one("(){;}"),
        Ok(vec![
            Token::OpenParenthesis,
            Token::CloseParenthesis,
            Token::OpenBrace,
            Token::Semicolon,
            Token::CloseBrace,
        ])
    );
}

#[test]
fn whitespace_contributes_no_tokens() {
    assert_eq!(lex_one("   \t  "), Ok(vec![]));
    assert_eq!(lex(&lines(&["", "  ", ""])), Ok(vec![]));
    assert_eq!(lex(&lines(&[])), Ok(vec![]));
}

#[test]
fn keywords_and_identifiers() {
    assert_eq!(lex_one("Int"), Ok(vec![Token::IntKeyword]));
    assert_eq!(lex_one("Return"), Ok(vec![Token::ReturnKeyword]));
    assert_eq!(lex_one("foo"), Ok(vec![ident("foo")]));
}

#[test]
fn keyword_prefix_is_an_identifier() {
    assert_eq!(lex_one("Integer"), Ok(vec![ident("Integer")]));
    assert_eq!(lex_one("Returns"), Ok(vec![ident("Returns")]));
}

#[test]
fn underscore_starts_an_identifier() {
    assert_eq!(lex_one("_foo"), Ok(vec![ident("_foo")]));
    assert_eq!(lex_one("a_1"), Ok(vec![ident("a_1")]));
}

#[test]
fn integer_literals() {
    assert_eq!(lex_one("0"), Ok(vec![Token::Integer(0)]));
    assert_eq!(lex_one("42"), Ok(vec![Token::Integer(42)]));
    assert_eq!(lex_one("0x1f"), Ok(vec![Token::Integer(31)]));
    assert_eq!(lex_one("0b101"), Ok(vec![Token::Integer(5)]));
    assert_eq!(lex_one("0o17"), Ok(vec![Token::Integer(15)]));
}

#[test]
fn uppercase_hex_digit_is_rejected() {
    assert_eq!(
        lex_one("0x1F"),
        Err(LexError::UnexpectedCharacter('F'))
    );
}

#[test]
fn bare_radix_prefix_flushes_as_zero() {
    assert_eq!(lex_one("0b"), Ok(vec![Token::Integer(0)]));
    assert_eq!(lex_one("0x"), Ok(vec![Token::Integer(0)]));
    assert_eq!(lex_one("00"), Ok(vec![Token::Integer(0)]));
}

#[test]
fn lowercase_int_is_an_identifier_not_a_keyword() {
    assert_eq!(
        lex_one("int x;"),
        Ok(vec![ident("int"), ident("x"), Token::Semicolon])
    );
}

#[test]
fn return_statement() {
    assert_eq!(
        lex_one("Return 0;"),
        Ok(vec![Token::ReturnKeyword, Token::Integer(0), Token::Semicolon])
    );
}

#[test]
fn punctuation_terminates_lexemes() {
    assert_eq!(
        lex_one("Int{Return}"),
        Ok(vec![
            Token::IntKeyword,
            Token::OpenBrace,
            Token::ReturnKeyword,
            Token::CloseBrace,
        ])
    );
    assert_eq!(
        lex_one("123;"),
        Ok(vec![Token::Integer(123), Token::Semicolon])
    );
}

#[test]
fn line_break_flushes_a_lexeme_as_two_tokens() {
    assert_eq!(
        lex(&lines(&["fo", "o"])),
        Ok(vec![ident("fo"), ident("o")])
    );
    assert_eq!(
        lex(&lines(&["12", "34"])),
        Ok(vec![Token::Integer(12), Token::Integer(34)])
    );
}

#[test]
fn digit_invalid_for_radix_fails() {
    assert_eq!(lex_one("0b2"), Err(LexError::UnexpectedCharacter('2')));
    assert_eq!(lex_one("0o8"), Err(LexError::UnexpectedCharacter('8')));
    assert_eq!(lex_one("9a"), Err(LexError::UnexpectedCharacter('a')));
}

#[test]
fn stray_letter_after_leading_zero_fails() {
    assert_eq!(lex_one("0a"), Err(LexError::UnexpectedCharacter('a')));
}

#[test]
fn unclassifiable_characters_fail() {
    assert_eq!(lex_one("@"), Err(LexError::UnknownCharacter('@')));
    assert_eq!(lex_one("fo@"), Err(LexError::UnknownCharacter('@')));
    assert_eq!(lex_one("12@"), Err(LexError::UnknownCharacter('@')));
}

#[test]
fn an_error_returns_no_tokens_at_all() {
    // The offending character comes after valid lexemes, yet nothing is
    // returned for the call.
    assert_eq!(
        lex_one("Int x; @"),
        Err(LexError::UnknownCharacter('@'))
    );
}

#[test]
fn lexing_is_deterministic() {
    let input = lines(&["Int main() {", "Return 0x2a;", "}"]);
    let first = lex(&input);
    let second = lex(&input);
    assert_eq!(first, second);
    assert_eq!(
        first,
        Ok(vec![
            Token::IntKeyword,
            ident("main"),
            Token::OpenParenthesis,
            Token::CloseParenthesis,
            Token::OpenBrace,
            Token::ReturnKeyword,
            Token::Integer(42),
            Token::Semicolon,
            Token::CloseBrace,
        ])
    );
}

#[test]
fn accumulation_wraps_modulo_two_to_the_sixty_four() {
    // 2^64 wraps to 0; 2^64 + 1 wraps to 1.
    assert_eq!(
        lex_one("18446744073709551616"),
        Ok(vec![Token::Integer(0)])
    );
    assert_eq!(
        lex_one("18446744073709551617"),
        Ok(vec![Token::Integer(1)])
    );
}

#[test]
fn largest_magnitude_is_kept_exactly() {
    assert_eq!(
        lex_one("18446744073709551615"),
        Ok(vec![Token::Integer(u64::MAX)])
    );
    assert_eq!(
        lex_one("0xffffffffffffffff"),
        Ok(vec![Token::Integer(u64::MAX)])
    );
}

#[test]
fn unicode_whitespace_separates_tokens() {
    // U+00A0 no-break space and U+3000 ideographic space are whitespace.
    assert_eq!(
        lex_one("Return\u{00A0}7\u{3000};"),
        Ok(vec![Token::ReturnKeyword, Token::Integer(7), Token::Semicolon])
    );
}

#[test]
fn unicode_letters_form_identifiers() {
    assert_eq!(lex_one("h\u{00E9}llo"), Ok(vec![ident("h\u{00E9}llo")]));
}

#[test]
fn tokenizer_is_reusable_after_a_successful_scan() {
    let mut t = Tokenizer::new();
    assert_eq!(t.tokenize(&lines(&["fo"])), Ok(vec![ident("fo")]));
    // A line end reset the state, so the next scan starts fresh.
    assert_eq!(t.tokenize(&lines(&["o"])), Ok(vec![ident("o")]));
}

#[test]
fn primitive_to_token_maps_the_five_characters() {
    assert_eq!(primitive_to_token('{'), Ok(Token::OpenBrace));
    assert_eq!(primitive_to_token('}'), Ok(Token::CloseBrace));
    assert_eq!(primitive_to_token('('), Ok(Token::OpenParenthesis));
    assert_eq!(primitive_to_token(')'), Ok(Token::CloseParenthesis));
    assert_eq!(primitive_to_token(';'), Ok(Token::Semicolon));
}

#[test]
fn primitive_to_token_rejects_everything_else() {
    assert_eq!(
        primitive_to_token('a'),
        Err(LexError::UnexpectedCharacter('a'))
    );
    assert_eq!(
        primitive_to_token(' '),
        Err(LexError::UnexpectedCharacter(' '))
    );
}

#[test]
fn string_to_token_classifies_lexemes() {
    assert_eq!(string_to_token("Int"), Token::IntKeyword);
    assert_eq!(string_to_token("Return"), Token::ReturnKeyword);
    assert_eq!(string_to_token("x"), ident("x"));
    assert_eq!(string_to_token("INT"), ident("INT"));
}
