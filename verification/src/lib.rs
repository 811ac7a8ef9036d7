//! A lexical scanner for a small imperative language.
//!
//! [`lexer::Lexer`] turns source text into [`token::Token`]s, one per call.
//! It reads [`symbol::Symbol`]s, characters that carry their classification,
//! and [`grammar`] says for every text of symbols which token each call
//! returns. What follows from the grammar is proved in [`laws`]. What is
//! assumed of the standard library stands in [`std_specs`].
//!
//! [`parse_tree`] holds the node that a parser will build its tree of.

pub mod grammar;
pub mod laws;
pub mod lexer;
pub mod parse_tree;
pub mod std_specs;
pub mod symbol;
pub mod token;
