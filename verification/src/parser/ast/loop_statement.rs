use vstd::prelude::*;

use crate::parser::ast::block::Block;

verus! {

/// `loop { ... }`, left only by `break` or `ret`.
#[derive(Debug)]
pub struct LoopStatement {
    pub body: Block,
}

impl LoopStatement {
    pub fn new(body: Block) -> (r: Self)
        ensures
            r.body == body,
    {
        LoopStatement { body }
    }

    pub fn body(&self) -> (r: &Block)
        ensures
            *r == self.body,
    {
        &self.body
    }
}

} // verus!
