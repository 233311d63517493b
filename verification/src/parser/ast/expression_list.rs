use vstd::prelude::*;

use crate::parser::ast::expression::Expression;

verus! {

#[derive(Debug)]
pub struct ExpressionList {
    pub expressions: Vec<Expression>,
}

impl ExpressionList {
    pub fn new(expressions: Vec<Expression>) -> (r: Self)
        ensures
            r.expressions == expressions,
    {
        ExpressionList { expressions }
    }

    pub fn expressions(&self) -> (r: &[Expression])
        ensures
            r@ == self.expressions@,
    {
        self.expressions.as_slice()
    }
}

} // verus!
