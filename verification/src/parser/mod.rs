//! Parsing of Y source text into the abstract syntax tree.
use vstd::prelude::*;
use vstd::string::StringExecFns;

pub mod ast;
pub mod combinators;
pub mod descent;
pub mod direct_parsing;
pub mod parse_state;
pub mod program;
pub mod render;
pub mod syntax;

pub use self::parse_state::ParseState;

use crate::lexer::Span;

verus! {

/// An error found while lexing or parsing, with the position where it was found.
#[derive(Debug, Clone, PartialEq, Eq)]
pub struct ParseError {
    pub message: String,
    pub position: Option<Span>,
}

impl ParseError {
    /// The error for input that ended while `item` was being parsed.
    pub fn eof(item: &str) -> (e: ParseError)
        ensures
            e.message@ == "hit EOF while parsing "@ + item@,
            e.position is None,
    {
        let message = String::from_str("hit EOF while parsing ").concat(item);
        ParseError { message, position: None }
    }

    /// An error with a message at a position.
    pub fn at(message: &str, position: Span) -> (e: ParseError)
        ensures
            e.message@ == message@,
            e.position == Some(position),
    {
        ParseError { message: String::from_str(message), position: Some(position) }
    }
}

} // verus!
