//! Renders an expression tree as a parenthesized prefix text,
//! such as `(* (- 123) (group 45.67))`.
use vstd::prelude::*;

use crate::ast::{Ex, Expr};
use crate::token::spelling;

verus! {

/// The parts joined by single spaces.
pub open spec fn join(parts: Seq<Seq<char>>) -> Seq<char>
    decreases parts.len(),
{
    if parts.len() == 0 {
        seq![]
    } else if parts.len() == 1 {
        parts[0]
    } else {
        join(parts.drop_last()) + seq![' '] + parts.last()
    }
}

/// The parts joined by single spaces, in parentheses.
pub open spec fn parens(parts: Seq<Seq<char>>) -> Seq<char> {
    seq!['('] + join(parts) + seq![')']
}

/// The rendered form of an expression.
pub open spec fn render(e: Ex) -> Seq<char>
    decreases e,
{
    match e {
        Ex::Literal(t) => spelling(t),
        Ex::Unary(op, x) => parens(seq![spelling(op), render(*x)]),
        Ex::Binary(l, op, r) => parens(seq![spelling(op), render(*l), render(*r)]),
        Ex::Grouping(x) => parens(seq!["group"@, render(*x)]),
    }
}

/// A walk over an expression tree that computes a `T`.
pub trait Visitor<T> {
    fn visit_expr(&self, expr: &Expr) -> T;
}

/// The visitor that renders a tree as text.
pub struct PrettyPrinter;

impl PrettyPrinter {
    /// The rendered form of `expr`.
    pub fn render(&self, expr: &Expr) -> (r: String)
        ensures
            r@ == render(expr@),
        decreases expr,
    {
        match expr {
            Expr::Literal(token) => {
                token.spelling()
            },
            Expr::Unary(token, x) => {
                let parts = vec![token.spelling(), self.render(x)];
                assert(views(parts@) =~= seq![parts@[0]@, parts@[1]@]);
                parenthesize(parts)
            },
            Expr::Binary(lhs, operator, rhs) => {
                let parts = vec![operator.spelling(), self.render(lhs), self.render(rhs)];
                assert(views(parts@) =~= seq![parts@[0]@, parts@[1]@, parts@[2]@]);
                parenthesize(parts)
            },
            Expr::Grouping(x) => {
                let parts = vec![String::from_str("group"), self.render(x)];
                assert(views(parts@) =~= seq![parts@[0]@, parts@[1]@]);
                parenthesize(parts)
            },
        }
    }
}

impl Visitor<String> for PrettyPrinter {
    fn visit_expr(&self, expr: &Expr) -> (r: String)
        ensures
            r@ == render(expr@),
    {
        self.render(expr)
    }
}

pub open spec fn views(v: Seq<String>) -> Seq<Seq<char>> {
    v.map_values(|s: String| s@)
}

/// The items joined by single spaces, in parentheses.
pub fn parenthesize(list: Vec<String>) -> (r: String)
    ensures
        r@ == parens(views(list@)),
{
    let mut s = String::from_str("(");
    let mut k: usize = 0;
    proof {
        reveal_strlit("(");
        assert(views(list@.subrange(0, 0)) =~= Seq::<Seq<char>>::empty());
        assert(s@ =~= seq!['('] + join(views(list@.subrange(0, 0))));
    }
    while k < list.len()
        invariant
            k <= list@.len(),
            s@ == seq!['('] + join(views(list@.subrange(0, k as int))),
        decreases list@.len() - k,
    {
        let ghost before = views(list@.subrange(0, k as int));
        if k > 0 {
            s.append(" ");
        }
        s.append(list[k].as_str());
        k = k + 1;
        proof {
            let now = views(list@.subrange(0, k as int));
            assert(now.drop_last() =~= before);
            assert(now.last() == list@[k - 1]@);
            reveal_strlit(" ");
            if k == 1 {
                assert(before =~= Seq::<Seq<char>>::empty());
                assert(now.len() == 1);
            }
        }
    }
    s.append(")");
    proof {
        reveal_strlit("(");
        reveal_strlit(")");
        assert(list@.subrange(0, list@.len() as int) =~= list@);
    }
    s
}

} // verus!
