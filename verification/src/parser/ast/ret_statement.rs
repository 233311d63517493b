use vstd::prelude::*;

use crate::parser::ast::expression::Expression;

verus! {

/// `ret e`.
#[derive(Debug)]
pub struct RetStatement {
    pub expr: Expression,
}

impl RetStatement {
    pub fn new(expr: Expression) -> (r: Self)
        ensures
            r.expr == expr,
    {
        RetStatement { expr }
    }

    pub fn expr(&self) -> (r: &Expression)
        ensures
            *r == self.expr,
    {
        &self.expr
    }
}

} // verus!
