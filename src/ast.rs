//! The expression tree: each node owns its children outright.
use vstd::prelude::*;

use crate::token::{Tok, Token};

verus! {

#[derive(Debug, PartialEq)]
pub enum Expr {
    Literal(Token),
    Unary(Token, Box<Expr>),
    Binary(Box<Expr>, Token, Box<Expr>),
    Grouping(Box<Expr>),
}

/// The mathematical value of an expression tree, over token values.
pub enum Ex {
    Literal(Tok),
    Unary(Tok, Box<Ex>),
    Binary(Box<Ex>, Tok, Box<Ex>),
    Grouping(Box<Ex>),
}

pub open spec fn model(e: Expr) -> Ex
    decreases e,
{
    match e {
        Expr::Literal(t) => Ex::Literal(t@),
        Expr::Unary(op, x) => Ex::Unary(op@, Box::new(model(*x))),
        Expr::Binary(l, op, r) => Ex::Binary(Box::new(model(*l)), op@, Box::new(model(*r))),
        Expr::Grouping(x) => Ex::Grouping(Box::new(model(*x))),
    }
}

impl View for Expr {
    type V = Ex;

    open spec fn view(&self) -> Ex {
        model(*self)
    }
}

} // verus!
