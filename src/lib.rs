//! A lexer for a small C-like language: it turns source text into a
//! sequence of classified, line-tagged tokens, or into a single error.
//!
//! - `token`: the token, its kind and the error type.
//! - `grammar`: the scanner as a mathematical function from characters to tokens.
//! - `lexer`: `tokenize`, proved to compute that function.
//! - `laws`: properties of the scanner, proved.
//! - `text`: the character classes and string conversions of the standard library.

pub mod grammar;
pub mod laws;
pub mod lexer;
pub mod text;
pub mod token;

pub use lexer::tokenize;
pub use token::{LexError, Token, TokenType, TokenView};
