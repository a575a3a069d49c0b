//! A single-pass lexical scanner for Lox source text.
//!
//! The scanner turns a text into an ordered sequence of tokens, each with its
//! lexeme, kind, decoded literal and source line, and closes the sequence with
//! one end-of-input token. Malformed lexemes are skipped and noted in a list of
//! reports; the scan itself always runs to the end of the text.
//!
//! Offsets count Unicode scalar values, not bytes: the text is seen as a
//! sequence of `char`, and every position, lexeme and literal is a range of it.

pub mod chars;
pub mod diagnostics;
pub mod laws;
pub mod model;
pub mod scanner;
pub mod token;

pub use diagnostics::error;
pub use diagnostics::ErrorReport;
pub use scanner::Scanner;
pub use token::Literal;
pub use token::Token;
pub use token::TokenType;
