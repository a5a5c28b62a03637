//! Control flow: the `if` statement, with an optional `else` body.

use vstd::prelude::*;
use super::expr::{ExprV, Expression};
use super::tree::{Statement, StmtV};

verus! {

/// An `if` statement: a condition, a then-body, and an optional else-body.
#[derive(Debug, PartialEq, Eq)]
pub struct If {
    pub condition: Expression,
    pub body: Vec<Statement>,
    pub else_body: Option<Vec<Statement>>,
}

/// The mathematical view of an `if` statement.
pub struct IfV {
    pub condition: ExprV,
    pub body: Seq<StmtV>,
    pub else_body: Option<Seq<StmtV>>,
}

} // verus!
