//! Lexical analysis for a multi-script programming language: source text in,
//! position-tagged tokens out, with every step of the scanner proved against a
//! mathematical model of the lexical grammar.

pub mod laws;
pub mod patterns;
pub mod scanner;
pub mod text;
pub mod token;

pub use patterns::{Category, Regexes};
pub use scanner::interpret;
pub use text::strip_carriage_returns;
pub use token::{Token, TokenType};
