//! A recursive-descent parser over the precedence ladder
//! equality < comparison < term < factor < unary < primary.
use vstd::prelude::*;

use crate::ast::{Ex, Expr};
use crate::error::{Error, Expected};
use crate::token::{toks, Tok, Token};

verus! {

/// A parse failure: where it happened, and what was due there.
pub struct SyntaxFault {
    pub position: int,
    pub expected: Expected,
}

/// A parsed expression with the number of tokens it spans, or a failure.
pub type Parsed = Result<(Ex, nat), SyntaxFault>;

/// How many tokens lie at and after `p`.
pub open spec fn remaining(ts: Seq<Tok>, p: int) -> nat {
    if p < ts.len() {
        (ts.len() - p) as nat
    } else {
        0
    }
}

/// The token at `p`, unless the sequence has ended there (at its end or at `Eof`).
pub open spec fn tok_at(ts: Seq<Tok>, p: int) -> Option<Tok> {
    if 0 <= p < ts.len() && ts[p] != Tok::Plain(Token::Eof) {
        Some(ts[p])
    } else {
        None
    }
}

/// The token found at `p`: `Eof` past the end.
pub open spec fn found(ts: Seq<Tok>, p: int) -> Tok {
    if 0 <= p < ts.len() {
        ts[p]
    } else {
        Tok::Plain(Token::Eof)
    }
}

/// Whether `t` is a binary operator of precedence level `level`:
/// 0 equality, 1 comparison, 2 term, 3 factor.
pub open spec fn binds_at(level: nat, t: Tok) -> bool {
    match t {
        Tok::Plain(k) => if level == 0 {
            k is Ne || k is EqEq
        } else if level == 1 {
            k is Gt || k is Ge || k is Lt || k is Le
        } else if level == 2 {
            k is Plus || k is Minus
        } else if level == 3 {
            k is Slash || k is Star
        } else {
            false
        },
        _ => false,
    }
}

pub open spec fn is_literal(t: Tok) -> bool {
    t is Num || t is Str || t == Tok::Plain(Token::True) || t == Tok::Plain(Token::False) || t
        == Tok::Plain(Token::Nil)
}

pub open spec fn rank(level: nat) -> nat {
    if level >= 4 {
        0
    } else {
        (4 - level) as nat
    }
}

/// `r` with `n` more tokens counted in its span.
pub open spec fn shift(r: Parsed, n: nat) -> Parsed {
    match r {
        Ok((e, m)) => Ok((e, n + m)),
        Err(f) => Err(f),
    }
}

/// The expression of precedence level `level` (4: unary) that starts at `p`.
pub open spec fn parse_level(ts: Seq<Tok>, p: int, level: nat) -> Parsed
    decreases remaining(ts, p), rank(level), 2nat,
{
    if level >= 4 {
        parse_unary(ts, p)
    } else {
        match parse_level(ts, p, level + 1) {
            Ok((l, n)) => shift(fold(ts, p + n, level, l), n),
            Err(f) => Err(f),
        }
    }
}

/// The operators of level `level` and their operands that follow `left`
/// from `p` on, folded to the left onto `left`.
pub open spec fn fold(ts: Seq<Tok>, p: int, level: nat, left: Ex) -> Parsed
    decreases remaining(ts, p), rank(level), 1nat,
{
    match tok_at(ts, p) {
        Some(t) => if binds_at(level, t) {
            match parse_level(ts, p + 1, level + 1) {
                Ok((r, n)) => shift(
                    fold(ts, p + 1 + n, level, Ex::Binary(Box::new(left), t, Box::new(r))),
                    1 + n,
                ),
                Err(f) => Err(f),
            }
        } else {
            Ok((left, 0))
        },
        None => Ok((left, 0)),
    }
}

pub open spec fn parse_unary(ts: Seq<Tok>, p: int) -> Parsed
    decreases remaining(ts, p), 0nat, 1nat,
{
    match tok_at(ts, p) {
        Some(t) => if t == Tok::Plain(Token::Not) || t == Tok::Plain(Token::Minus) {
            match parse_unary(ts, p + 1) {
                Ok((e, n)) => Ok((Ex::Unary(t, Box::new(e)), n + 1)),
                Err(f) => Err(f),
            }
        } else {
            parse_primary(ts, p)
        },
        None => parse_primary(ts, p),
    }
}

pub open spec fn parse_primary(ts: Seq<Tok>, p: int) -> Parsed
    decreases remaining(ts, p), 0nat, 0nat,
{
    match tok_at(ts, p) {
        Some(t) => if is_literal(t) {
            Ok((Ex::Literal(t), 1))
        } else if t == Tok::Plain(Token::LeftParen) {
            match parse_level(ts, p + 1, 0) {
                Ok((e, n)) => if tok_at(ts, p + 1 + n) == Some(Tok::Plain(Token::RightParen)) {
                    Ok((Ex::Grouping(Box::new(e)), n + 2))
                } else {
                    Err(SyntaxFault { position: p + 1 + n, expected: Expected::ClosingParen })
                },
                Err(f) => Err(f),
            }
        } else {
            Err(SyntaxFault { position: p, expected: Expected::Expression })
        },
        None => Err(SyntaxFault { position: p, expected: Expected::Expression }),
    }
}

/// The whole parse from `p`: one expression, then the end of the tokens.
pub open spec fn parse_from(ts: Seq<Tok>, p: int) -> Result<Ex, SyntaxFault> {
    match parse_level(ts, p, 0) {
        Ok((e, n)) => if tok_at(ts, p + n) is None {
            Ok(e)
        } else {
            Err(SyntaxFault { position: p + n, expected: Expected::EndOfInput })
        },
        Err(f) => Err(f),
    }
}

/// The parse of a whole token sequence.
pub open spec fn parse_tokens(ts: Seq<Tok>) -> Result<Ex, SyntaxFault> {
    parse_from(ts, 0)
}

/// `e` reports the failure `f` on the tokens `ts`.
pub open spec fn reports_fault(e: Error, ts: Seq<Tok>, f: SyntaxFault) -> bool {
    e matches Error::Syntax { position, token, expected } && position == f.position && token@
        == found(ts, f.position) && expected == f.expected
}

pub struct Parser {
    tokens: Vec<Token>,
    current: usize,
}

impl Parser {
    /// The tokens being parsed.
    pub closed spec fn tokens(&self) -> Seq<Tok> {
        toks(self.tokens@)
    }

    /// The cursor.
    pub closed spec fn position(&self) -> int {
        self.current as int
    }

    pub fn new(tokens: Vec<Token>) -> (r: Self)
        ensures
            r.tokens() == toks(tokens@),
            r.position() == 0,
    {
        Parser { tokens, current: 0 }
    }

    /// Parses one expression that runs to the end of the tokens.
    pub fn parse(&mut self) -> (r: Result<Expr, Error>)
        requires
            old(self).position() <= old(self).tokens().len(),
        ensures
            final(self).tokens() == old(self).tokens(),
            match parse_from(old(self).tokens(), old(self).position()) {
                Ok(e) => r matches Ok(x) && x@ == e,
                Err(f) => r matches Err(err) && reports_fault(err, old(self).tokens(), f),
            },
    {
        let expr = match self.parse_level(0) {
            Ok(e) => e,
            Err(e) => return Err(e),
        };
        if self.is_at_end() {
            Ok(expr)
        } else {
            Err(self.fault(Expected::EndOfInput))
        }
    }

    /// Parses the expression of precedence level `level` at the cursor.
    fn parse_level(&mut self, level: u8) -> (r: Result<Expr, Error>)
        requires
            old(self).position() <= old(self).tokens().len(),
            level <= 4,
        ensures
            final(self).tokens() == old(self).tokens(),
            final(self).position() <= final(self).tokens().len(),
            match parse_level(old(self).tokens(), old(self).position(), level as nat) {
                Ok((e, n)) => r matches Ok(x) && x@ == e && final(self).position() == old(
                    self,
                ).position() + n,
                Err(f) => r matches Err(err) && reports_fault(err, old(self).tokens(), f),
            },
        decreases remaining(old(self).tokens(), old(self).position()), rank(level as nat), 2nat,
    {
        if level >= 4 {
            return self.parse_unary();
        }
        let ghost ts = self.tokens();
        let start = self.current;
        let mut expr = match self.parse_level(level + 1) {
            Ok(e) => e,
            Err(e) => return Err(e),
        };
        while self.at_operator(level)
            invariant
                self.tokens() == ts,
                ts == old(self).tokens(),
                start as int == old(self).position(),
                start <= self.current <= ts.len(),
                level < 4,
                parse_level(ts, start as int, level as nat) == shift(
                    fold(ts, self.current as int, level as nat, expr@),
                    (self.current - start) as nat,
                ),
            decreases remaining(ts, self.current as int),
        {
            let op = self.tokens[self.current].duplicate();
            assert(op@ == ts[self.current as int]);
            self.current = self.current + 1;
            let rhs = match self.parse_level(level + 1) {
                Ok(e) => e,
                Err(e) => return Err(e),
            };
            expr = Expr::Binary(Box::new(expr), op, Box::new(rhs));
        }
        Ok(expr)
    }

    fn parse_unary(&mut self) -> (r: Result<Expr, Error>)
        requires
            old(self).position() <= old(self).tokens().len(),
        ensures
            final(self).tokens() == old(self).tokens(),
            final(self).position() <= final(self).tokens().len(),
            match parse_unary(old(self).tokens(), old(self).position()) {
                Ok((e, n)) => r matches Ok(x) && x@ == e && final(self).position() == old(
                    self,
                ).position() + n,
                Err(f) => r matches Err(err) && reports_fault(err, old(self).tokens(), f),
            },
        decreases remaining(old(self).tokens(), old(self).position()), 0nat, 1nat,
    {
        if !self.is_at_end() && (matches!(self.tokens[self.current], Token::Not) || matches!(
            self.tokens[self.current],
            Token::Minus
        )) {
            let op = self.tokens[self.current].duplicate();
            assert(op@ == self.tokens()[self.current as int]);
            self.current = self.current + 1;
            match self.parse_unary() {
                Ok(e) => Ok(Expr::Unary(op, Box::new(e))),
                Err(e) => Err(e),
            }
        } else {
            self.parse_primary()
        }
    }

    fn parse_primary(&mut self) -> (r: Result<Expr, Error>)
        requires
            old(self).position() <= old(self).tokens().len(),
        ensures
            final(self).tokens() == old(self).tokens(),
            final(self).position() <= final(self).tokens().len(),
            match parse_primary(old(self).tokens(), old(self).position()) {
                Ok((e, n)) => r matches Ok(x) && x@ == e && final(self).position() == old(
                    self,
                ).position() + n,
                Err(f) => r matches Err(err) && reports_fault(err, old(self).tokens(), f),
            },
        decreases remaining(old(self).tokens(), old(self).position()), 0nat, 0nat,
    {
        if self.is_at_end() {
            return Err(self.fault(Expected::Expression));
        }
        let ghost p = self.current as int;
        assert(self.tokens()[p] == self.tokens@[p]@);
        if self.match_literal() {
            let lit = self.tokens[self.current - 1].duplicate();
            return Ok(Expr::Literal(lit));
        }
        if matches!(self.tokens[self.current], Token::LeftParen) {
            self.current = self.current + 1;
            let inner = match self.parse_level(0) {
                Ok(e) => e,
                Err(e) => return Err(e),
            };
            if !self.is_at_end() && matches!(self.tokens[self.current], Token::RightParen) {
                self.current = self.current + 1;
                return Ok(Expr::Grouping(Box::new(inner)));
            }
            return Err(self.fault(Expected::ClosingParen));
        }
        Err(self.fault(Expected::Expression))
    }

    /// Consumes the token at the cursor if it is a literal.
    fn match_literal(&mut self) -> (r: bool)
        requires
            old(self).position() < old(self).tokens().len(),
            old(self).tokens@.len() <= usize::MAX,
        ensures
            final(self).tokens() == old(self).tokens(),
            r == is_literal(old(self).tokens()[old(self).position()]),
            final(self).position() == old(self).position() + if r {
                1int
            } else {
                0int
            },
    {
        assert(self.tokens().len() == self.tokens@.len());
        let lit = match self.tokens[self.current] {
            Token::Number(_) | Token::String(_) | Token::True | Token::False | Token::Nil => true,
            _ => false,
        };
        if lit {
            self.current = self.current + 1;
        }
        lit
    }

    /// Whether the token at the cursor is an operator of level `level`.
    fn at_operator(&self, level: u8) -> (r: bool)
        requires
            self.position() <= self.tokens().len(),
        ensures
            r == (tok_at(self.tokens(), self.position()) matches Some(t) && binds_at(level as nat, t)),
            self.tokens().len() == self.tokens@.len(),
            self.tokens@.len() <= usize::MAX,
    {
        if self.is_at_end() {
            return false;
        }
        assert(self.tokens()[self.position()] == self.tokens@[self.position()]@);
        match self.tokens[self.current] {
            Token::Ne | Token::EqEq => level == 0,
            Token::Gt | Token::Ge | Token::Lt | Token::Le => level == 1,
            Token::Plus | Token::Minus => level == 2,
            Token::Slash | Token::Star => level == 3,
            _ => false,
        }
    }

    /// Whether the tokens have run out at the cursor.
    fn is_at_end(&self) -> (r: bool)
        ensures
            r == (tok_at(self.tokens(), self.position()) is None),
            self.tokens().len() == self.tokens@.len(),
            self.tokens@.len() <= usize::MAX,
    {
        if self.current >= self.tokens.len() {
            true
        } else {
            assert(self.tokens()[self.position()] == self.tokens@[self.position()]@);
            matches!(self.tokens[self.current], Token::Eof)
        }
    }

    /// A syntax error at the cursor.
    fn fault(&self, expected: Expected) -> (r: Error)
        ensures
            reports_fault(r, self.tokens(), (SyntaxFault { position: self.position(), expected })),
    {
        let token = if self.current < self.tokens.len() {
            assert(self.tokens()[self.position()] == self.tokens@[self.position()]@);
            self.tokens[self.current].duplicate()
        } else {
            Token::Eof
        };
        Error::Syntax { position: self.current, token, expected }
    }
}

} // verus!
