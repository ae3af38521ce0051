//! The parser's entry point and its diagnostics, under one roof.

pub use crate::error::{Expectation, ParseError, ParseResult};
pub use crate::parser::parse;
