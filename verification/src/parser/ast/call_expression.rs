use vstd::prelude::*;

use crate::parser::ast::{expression::Expression, expression_list::ExpressionList};

verus! {

#[derive(Debug)]
pub struct CallExpression {
    pub target: Box<Expression>,
    pub argument_list: ExpressionList,
}

impl CallExpression {
    pub fn new(target: Expression, argument_list: ExpressionList) -> (r: Self)
        ensures
            *r.target == target,
            r.argument_list == argument_list,
    {
        CallExpression { target: Box::new(target), argument_list }
    }

    pub fn target(&self) -> (r: &Expression)
        ensures
            *r == *self.target,
    {
        &self.target
    }

    pub fn argument_list(&self) -> (r: &[Expression])
        ensures
            r@ == self.argument_list.expressions@,
    {
        self.argument_list.expressions()
    }
}

} // verus!
