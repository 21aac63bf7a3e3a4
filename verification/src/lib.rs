//! Front end for a small C-like scripting language: a lexer that turns source
//! text into a stream of typed tokens, and a recursive-descent parser with
//! operator-precedence dispatch that builds an abstract syntax tree from that
//! stream while collecting diagnostics instead of aborting on malformed input.

pub mod ast;
pub mod lexer;
pub mod number;
pub mod parser;
pub mod token;
