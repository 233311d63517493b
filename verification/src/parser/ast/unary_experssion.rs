use vstd::prelude::*;

use crate::parser::ast::expression::Expression;

verus! {

/// The unary operators of the language.
#[derive(Clone, Copy, Debug, PartialEq, Eq, Structural)]
pub enum UnaryOp {
    LogicalNot,
}

#[derive(Debug)]
pub struct UnaryExpression {
    pub expr: Box<Expression>,
    pub op: UnaryOp,
}

impl UnaryExpression {
    pub fn expr(&self) -> (r: &Expression)
        ensures
            *r == *self.expr,
    {
        &self.expr
    }

    pub fn op(&self) -> (r: UnaryOp)
        ensures
            r == self.op,
    {
        self.op
    }

    pub fn new(expr: Expression, op: UnaryOp) -> (r: Self)
        ensures
            *r.expr == expr,
            r.op == op,
    {
        UnaryExpression { expr: Box::new(expr), op }
    }
}

/// The text of a unary operator.
pub fn unary_op_symbol(op: UnaryOp) -> (r: char)
    ensures
        op == UnaryOp::LogicalNot ==> r == '!',
{
    match op {
        UnaryOp::LogicalNot => '!',
    }
}

} // verus!
