use vstd::prelude::*;

use crate::parser::ast::expression::Expression;

verus! {

/// The binary operators of the language.
#[derive(Clone, Copy, Debug, PartialEq, Eq, Structural)]
pub enum BinaryOp {
    Add,
    Sub,
    Mul,
    Div,
    Mod,
    Equal,
    NotEqual,
    LessThan,
    LessThanEqual,
    GreaterThan,
    GreaterThanEqual,
    LogicalAnd,
    LogicalOr,
}

#[derive(Debug)]
pub struct BinaryExpression {
    pub lhs: Box<Expression>,
    pub rhs: Box<Expression>,
    pub op: BinaryOp,
}

impl BinaryExpression {
    pub fn lhs(&self) -> (r: &Expression)
        ensures
            *r == *self.lhs,
    {
        &self.lhs
    }

    pub fn rhs(&self) -> (r: &Expression)
        ensures
            *r == *self.rhs,
    {
        &self.rhs
    }

    pub fn op(&self) -> (r: BinaryOp)
        ensures
            r == self.op,
    {
        self.op
    }

    pub fn new(lhs: Expression, rhs: Expression, op: BinaryOp) -> (r: Self)
        ensures
            *r.lhs == lhs,
            *r.rhs == rhs,
            r.op == op,
    {
        BinaryExpression { lhs: Box::new(lhs), rhs: Box::new(rhs), op }
    }
}

} // verus!
