//! A recursive-descent parser for a small expression-oriented language, and
//! what the language's website works out before it renders.
//!
//! [`parse::parse`] turns the tokens of a source text into items (function
//! definitions, `let` bindings and bare expressions) and collects every
//! diagnostic it meets on the way. What it gives is stated over [`grammar`],
//! which says for every rule what is read at a position; [`laws`] states what
//! holds of every parse.

pub mod ast;
pub mod error;
pub mod grammar;
pub mod laws;
pub mod parse;
pub mod parser;
pub mod site;
pub mod span;
pub mod token;

pub mod diagnostics;
pub mod faithful;
pub mod placement;
pub mod precedence;
pub mod progress;
