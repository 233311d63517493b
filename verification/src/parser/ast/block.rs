use vstd::prelude::*;

use crate::parser::ast::statement::Statement;

verus! {

/// Collects statements into a [`Block`].
pub struct BlockBuilder {
    pub statements: Vec<Statement>,
}

impl BlockBuilder {
    pub fn new() -> (r: Self)
        ensures
            r.statements@.len() == 0,
    {
        BlockBuilder { statements: Vec::new() }
    }

    pub fn push_statement(self, statement: Statement) -> (r: Self)
        ensures
            r.statements@ == self.statements@.push(statement),
    {
        let mut statements = self.statements;
        statements.push(statement);
        BlockBuilder { statements }
    }

    pub fn build(self) -> (r: Block)
        ensures
            r.statements == self.statements,
    {
        Block::new(self.statements)
    }
}

/// A sequence of statements with its own lexical scope.
#[derive(Debug)]
pub struct Block {
    pub statements: Vec<Statement>,
}

impl Block {
    pub fn new(statements: Vec<Statement>) -> (r: Self)
        ensures
            r.statements == statements,
    {
        Block { statements }
    }

    pub fn statements(&self) -> (r: &[Statement])
        ensures
            r@ == self.statements@,
    {
        self.statements.as_slice()
    }
}

} // verus!
