//! Expressions: a single equality comparison between two values, an integer
//! literal, or an identifier. No operator precedence and no arithmetic.

use vstd::prelude::*;
use crate::lexer::token::{Ident, Literal};

verus! {

/// An expression node of the syntax tree.
#[derive(Debug, PartialEq, Eq)]
pub enum Expression {
    Equals { lhs: Box<Expression>, rhs: Box<Expression> },
    Literal(Literal),
    Ident(Ident),
}

/// The mathematical view of an expression.
pub enum ExprV {
    Equals { lhs: Box<ExprV>, rhs: Box<ExprV> },
    Literal(Literal),
    Ident(Seq<char>),
}

/// The view of an expression tree.
pub open spec fn expr_view(e: Expression) -> ExprV
    decreases e,
{
    match e {
        Expression::Equals { lhs, rhs } => ExprV::Equals {
            lhs: Box::new(expr_view(*lhs)),
            rhs: Box::new(expr_view(*rhs)),
        },
        Expression::Literal(l) => ExprV::Literal(l),
        Expression::Ident(id) => ExprV::Ident(id@),
    }
}

impl Expression {
    /// An equality comparison of the two given sub-expressions.
    pub fn new_equals(expr: (Expression, Expression)) -> (r: Expression)
        ensures
            expr_view(r) == (ExprV::Equals {
                lhs: Box::new(expr_view(expr.0)),
                rhs: Box::new(expr_view(expr.1)),
            }),
    {
        Expression::Equals { lhs: Box::new(expr.0), rhs: Box::new(expr.1) }
    }
}

} // verus!
