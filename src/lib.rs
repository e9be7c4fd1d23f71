//! Front end of a small scripting language: a scanner from source text to
//! tokens, a recursive-descent parser from tokens to an expression tree, and
//! a renderer from trees back to a parenthesized text.
use vstd::prelude::*;

pub mod ast;
pub mod error;
pub mod parser;
pub mod print;
pub mod scanner;
mod text;
pub mod token;

pub use error::Error;
pub use error::Expected;
pub use ast::Expr;
pub use parser::Parser;
pub use print::{PrettyPrinter, Visitor};
pub use scanner::Scanner;

pub use token::Token;

use crate::parser::{parse_tokens, reports_fault};
use crate::print::render;
use crate::scanner::{reports, scan};

verus! {

/// The rendered form of the expression written in `text`, when `text`
/// scans and parses.
pub open spec fn render_text(text: Seq<char>) -> Option<Seq<char>> {
    match scan(text) {
        Ok(ts) => match parse_tokens(ts) {
            Ok(e) => Some(render(e)),
            Err(_) => None,
        },
        Err(_) => None,
    }
}

/// Scans `source`, parses the tokens as one expression and renders it.
pub fn render_source(source: String) -> (r: Result<String, Error>)
    requires
        source@.len() < usize::MAX,
    ensures
        match scan(source@) {
            Ok(ts) => match parse_tokens(ts) {
                Ok(e) => r matches Ok(s) && s@ == render(e),
                Err(f) => r matches Err(err) && reports_fault(err, ts, f),
            },
            Err(f) => r matches Err(err) && reports(err, source@, f),
        },
        render_text(source@) matches Some(s) ==> r matches Ok(t) && t@ == s,
{
    let mut scanner = Scanner::new(source);
    let tokens = match scanner.read_tokens() {
        Ok(t) => t,
        Err(e) => return Err(e),
    };
    let mut parser = Parser::new(tokens);
    let expr = match parser.parse() {
        Ok(e) => e,
        Err(e) => return Err(e),
    };
    Ok(PrettyPrinter.render(&expr))
}

/// Scanning, parsing and rendering together are a function of the text
/// alone: the same text always renders the same way.
pub proof fn lemma_render_deterministic(a: Seq<char>, b: Seq<char>)
    requires
        a == b,
    ensures
        render_text(a) == render_text(b),
{
}

} // verus!
