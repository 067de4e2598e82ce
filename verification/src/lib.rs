//! Lexical analysis for a small C-like scripting language.
//!
//! The crate turns a source string into the sequence of tokens that a parser
//! consumes. The scan is a single left-to-right pass over the bytes of the
//! input with one byte of lookahead; its result is pinned down, byte for
//! byte, by the mathematical model in [`scan`].

pub mod lexer;
pub mod scan;
pub mod token;
