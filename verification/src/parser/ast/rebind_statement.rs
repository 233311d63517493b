use vstd::prelude::*;

use crate::parser::ast::{expression::Expression, var::var_ref::VarRef};

verus! {

/// `x = e` for a variable bound earlier with `mut`.
#[derive(Debug)]
pub struct RebindStatement {
    pub var: VarRef,
    pub expr: Expression,
}

impl RebindStatement {
    pub fn new(var: VarRef, expr: Expression) -> (r: Self)
        ensures
            r.var == var,
            r.expr == expr,
    {
        RebindStatement { var, expr }
    }

    pub fn var(&self) -> (r: &VarRef)
        ensures
            *r == self.var,
    {
        &self.var
    }

    pub fn expr(&self) -> (r: &Expression)
        ensures
            *r == self.expr,
    {
        &self.expr
    }
}

} // verus!
