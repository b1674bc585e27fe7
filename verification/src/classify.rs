//! Character and lexeme classification: the punctuation set, whitespace,
//! alphabetic and alphanumeric tests, digit values, and the keyword table.

use vstd::prelude::*;
use crate::token::SpecToken;

verus! {

/// Whether `c` is one of the five punctuation characters that form
/// single-character tokens and terminate any in-progress lexeme.
pub open spec fn is_punct_char(c: char) -> bool {
    c == '{' || c == '}' || c == '(' || c == ')' || c == ';'
}

/// The punctuation token for `c`; meaningful only when `is_punct_char(c)`.
pub open spec fn spec_punct_token(c: char) -> SpecToken
    recommends
        is_punct_char(c),
{
    if c == '{' {
        SpecToken::OpenBrace
    } else if c == '}' {
        SpecToken::CloseBrace
    } else if c == '(' {
        SpecToken::OpenParenthesis
    } else if c == ')' {
        SpecToken::CloseParenthesis
    } else {
        SpecToken::Semicolon
    }
}

/// Whether `c` has the Unicode `White_Space` property: the set that
/// `char::is_whitespace` recognizes, written out code point by code point.
pub open spec fn is_whitespace_char(c: char) -> bool {
    ('\u{0009}' <= c && c <= '\u{000D}') || c == ' ' || c == '\u{0085}' || c == '\u{00A0}'
        || c == '\u{1680}' || ('\u{2000}' <= c && c <= '\u{200A}') || c == '\u{2028}'
        || c == '\u{2029}' || c == '\u{202F}' || c == '\u{205F}' || c == '\u{3000}'
}

/// Executable whitespace test, proved equal to [`is_whitespace_char`].
pub fn is_whitespace(c: char) -> (r: bool)
    ensures
        r == is_whitespace_char(c),
{
    let code = c as u32;
    (0x0009 <= code && code <= 0x000D) || code == 0x0020 || code == 0x0085 || code == 0x00A0
        || code == 0x1680 || (0x2000 <= code && code <= 0x200A) || code == 0x2028
        || code == 0x2029 || code == 0x202F || code == 0x205F || code == 0x3000
}

/// Whether `char::is_alphabetic` accepts `c`: a character with the Unicode
/// `Alphabetic` property. The set is too large to write out, so it is left
/// uninterpreted and pinned to the standard library by [`is_alphabetic`].
pub uninterp spec fn char_is_alphabetic(c: char) -> bool;

/// Whether `char::is_alphanumeric` accepts `c`: a character that is
/// alphabetic or has a Unicode numeric general category. Left uninterpreted
/// and pinned to the standard library by [`is_alphanumeric`].
pub uninterp spec fn char_is_alphanumeric(c: char) -> bool;

/// Relies on `char::is_alphabetic`: true exactly for characters with the
/// Unicode `Alphabetic` property, a function of the character alone.
#[verifier::external_body]
pub fn is_alphabetic(c: char) -> (r: bool)
    ensures
        r == char_is_alphabetic(c),
{
    c.is_alphabetic()
}

/// Relies on `char::is_alphanumeric`: true exactly for characters that are
/// alphabetic or numeric in Unicode, a function of the character alone.
#[verifier::external_body]
pub fn is_alphanumeric(c: char) -> (r: bool)
    ensures
        r == char_is_alphanumeric(c),
{
    c.is_alphanumeric()
}

/// The digit value of `c` under the standard mapping (`'0'`–`'9'` to 0–9,
/// `'a'`–`'f'` to 10–15), or -1 for any other character. Uppercase letters
/// are not digits here: the scanner admits only lowercase hexadecimal.
pub open spec fn spec_digit_val(c: char) -> int {
    if '0' <= c && c <= '9' {
        c as int - 48
    } else if 'a' <= c && c <= 'f' {
        c as int - 87
    } else {
        -1
    }
}

/// The value of `c` as a digit in base `radix`, or `None` when `c` is no
/// digit or its value is not below `radix`. This conversion is the sole
/// authority on digit validity: an out-of-range digit such as `'9'` under
/// radix 2 yields `None`, never a value.
pub open spec fn spec_digit_in_radix(c: char, radix: u64) -> Option<u64> {
    if 0 <= spec_digit_val(c) < radix {
        Some(spec_digit_val(c) as u64)
    } else {
        None
    }
}

/// Executable digit conversion, proved equal to [`spec_digit_in_radix`].
pub fn digit_in_radix(c: char, radix: u64) -> (r: Option<u64>)
    ensures
        r == spec_digit_in_radix(c, radix),
{
    let code = c as u32;
    if 48 <= code && code <= 57 {
        let value = (code - 48) as u64;
        if value < radix {
            Some(value)
        } else {
            None
        }
    } else if 97 <= code && code <= 102 {
        let value = (code - 87) as u64;
        if value < radix {
            Some(value)
        } else {
            None
        }
    } else {
        None
    }
}

/// Whether `c` may continue a numeric literal: a decimal digit, a lowercase
/// hexadecimal digit, or one of the radix prefix letters `o` and `x`. (`b`
/// falls in the `'a'`–`'f'` range.)
pub open spec fn is_integer_continue_char(c: char) -> bool {
    ('0' <= c && c <= '9') || ('a' <= c && c <= 'f') || c == 'o' || c == 'x'
}

/// Executable form of [`is_integer_continue_char`].
pub fn is_integer_continue(c: char) -> (r: bool)
    ensures
        r == is_integer_continue_char(c),
{
    let code = c as u32;
    (48 <= code && code <= 57) || (97 <= code && code <= 102) || code == 111 || code == 120
}

/// The token for a completed identifier or keyword lexeme: the exact
/// spellings `Int` and `Return` are keywords, every other lexeme an
/// identifier. Case-sensitive, no trimming.
pub open spec fn spec_string_token(s: Seq<char>) -> SpecToken {
    if s == "Int"@ {
        SpecToken::IntKeyword
    } else if s == "Return"@ {
        SpecToken::ReturnKeyword
    } else {
        SpecToken::Identifier(s)
    }
}

} // verus!
