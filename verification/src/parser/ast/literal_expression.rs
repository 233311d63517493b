use vstd::prelude::*;

use crate::parser::token::literal::Literal;

verus! {

#[derive(Debug)]
pub struct LiteralExpression {
    pub literal: Literal,
}

impl LiteralExpression {
    pub fn new(literal: Literal) -> (r: Self)
        ensures
            r.literal == literal,
    {
        LiteralExpression { literal }
    }

    pub fn literal(&self) -> (r: &Literal)
        ensures
            *r == self.literal,
    {
        &self.literal
    }
}

} // verus!
