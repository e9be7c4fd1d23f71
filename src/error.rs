//! The errors of scanning and parsing.
use vstd::prelude::*;

use crate::token::Token;

verus! {

/// What the parser was looking for where it failed.
#[derive(Debug, Clone, Copy, PartialEq, Eq)]
pub enum Expected {
    /// A literal, a unary operator or an opening parenthesis.
    Expression,
    /// The parenthesis that closes a grouping.
    ClosingParen,
    /// The end of the token sequence, after a complete expression.
    EndOfInput,
}

#[derive(Debug, Clone, PartialEq)]
pub enum Error {
    InterpretError { line_string: String, message: String },
    InterpretErrorWithIndex { line_index: usize, line_string: String, message: String },
    /// A syntax error: the token found at `position` where `expected` was due.
    Syntax { position: usize, token: Token, expected: Expected },
}

impl Error {
    pub fn message(line_str: &str, message: &str) -> (r: Self)
        ensures
            r matches Error::InterpretError { line_string, message: m } && line_string@
                == line_str@ && m@ == message@,
    {
        Error::InterpretError {
            line_string: String::from_str(line_str),
            message: String::from_str(message),
        }
    }

    pub fn message_with_line_index(line_index: usize, line_str: &str, message: &str) -> (r: Self)
        ensures
            r matches Error::InterpretErrorWithIndex { line_index: i, line_string, message: m }
                && i == line_index && line_string@ == line_str@ && m@ == message@,
    {
        Error::InterpretErrorWithIndex {
            line_index,
            line_string: String::from_str(line_str),
            message: String::from_str(message),
        }
    }
}

} // verus!
