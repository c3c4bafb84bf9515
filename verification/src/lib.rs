//! A lexer for VHDL source text.
//!
//! The library turns an in-memory string into a finite stream of classified
//! tokens: whitespace runs, comments, character literals, identifiers, and a
//! single-character `Unknown` fallback.  Scanning follows the maximal-munch
//! discipline: at every cursor position each lexical rule is tried, the
//! longest match wins, and ties go to the rule declared earliest.  The
//! concatenation of all lexemes reproduces the input exactly.

pub mod laws;
pub mod rules;
pub mod scanner;
pub mod token;

pub use crate::scanner::Lexer;
pub use crate::scanner::next_token;
pub use crate::token::Token;
