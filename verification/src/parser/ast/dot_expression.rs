use vstd::prelude::*;

use crate::parser::{ast::expression::Expression, token::ident::Ident};

verus! {

#[derive(Debug)]
pub struct DotExpression {
    pub base: Box<Expression>,
    pub member: Ident,
}

impl DotExpression {
    pub fn new(base: Expression, member: Ident) -> (r: Self)
        ensures
            *r.base == base,
            r.member == member,
    {
        DotExpression { base: Box::new(base), member }
    }

    pub fn base(&self) -> (r: &Expression)
        ensures
            *r == *self.base,
    {
        &self.base
    }

    pub fn member(&self) -> (r: &Ident)
        ensures
            *r == self.member,
    {
        &self.member
    }
}

} // verus!
