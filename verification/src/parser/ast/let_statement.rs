use vstd::prelude::*;

use crate::parser::{ast::expression::Expression, token::ident::Ident};

verus! {

/// `let name = expr`, with the name not yet resolved.
#[derive(Debug)]
pub struct LetStatement {
    pub var: Ident,
    pub expr: Expression,
}

impl LetStatement {
    pub fn new(var: Ident, expr: Expression) -> (r: Self)
        ensures
            r.var == var,
            r.expr == expr,
    {
        LetStatement { var, expr }
    }

    pub fn var(&self) -> (r: &Ident)
        ensures
            *r == self.var,
    {
        &self.var
    }

    pub fn expr(&self) -> (r: &Expression)
        ensures
            *r == self.expr,
    {
        &self.expr
    }
}

} // verus!
