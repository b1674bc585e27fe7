//! A lexical analyzer for a minimal C-like language.
//!
//! The lexer turns line-oriented source text into a sequence of tokens:
//! punctuation (`{`, `}`, `(`, `)`, `;`), the keywords `Int` and `Return`,
//! identifiers, and unsigned integer literals with optional radix prefixes
//! (`0b`, `0o`, `0x`). It scans one character at a time, fails on the first
//! invalid character, and flushes any in-progress lexeme at each line end.
//!
//! The module [`machine`] gives the character-level state machine as a
//! mathematical specification; [`tokenizer`] holds the executable scanner,
//! proved to follow that machine exactly; [`laws`] states and proves the
//! general properties of the token stream.

pub mod classify;
pub mod laws;
pub mod machine;
pub mod token;
pub mod tokenizer;
