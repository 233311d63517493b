use vstd::prelude::*;

use crate::parser::ast::{block::Block, expression::Expression};

verus! {

/// What follows the body of an `if`.
#[derive(Debug)]
pub enum ElseClause {
    Empty,
    Else(Block),
    ElseIf(Box<IfStatement>),
}

#[derive(Debug)]
pub struct IfStatement {
    pub condition: Box<Expression>,
    pub body: Block,
    pub else_clause: ElseClause,
}

impl IfStatement {
    pub fn new(condition: Expression, body: Block) -> (r: Self)
        ensures
            *r.condition == condition,
            r.body == body,
            r.else_clause == ElseClause::Empty,
    {
        IfStatement { condition: Box::new(condition), body, else_clause: ElseClause::Empty }
    }

    pub fn new_with_else(condition: Expression, body: Block, else_block: Block) -> (r: Self)
        ensures
            *r.condition == condition,
            r.body == body,
            r.else_clause == ElseClause::Else(else_block),
    {
        IfStatement { condition: Box::new(condition), body, else_clause: ElseClause::Else(else_block) }
    }

    pub fn new_with_else_if(condition: Expression, body: Block, else_if: IfStatement) -> (r: Self)
        ensures
            *r.condition == condition,
            r.body == body,
            r.else_clause == ElseClause::ElseIf(Box::new(else_if)),
    {
        IfStatement {
            condition: Box::new(condition),
            body,
            else_clause: ElseClause::ElseIf(Box::new(else_if)),
        }
    }

    pub fn condition(&self) -> (r: &Expression)
        ensures
            *r == *self.condition,
    {
        &self.condition
    }

    pub fn body(&self) -> (r: &Block)
        ensures
            *r == self.body,
    {
        &self.body
    }

    pub fn else_clause(&self) -> (r: &ElseClause)
        ensures
            *r == self.else_clause,
    {
        &self.else_clause
    }
}

} // verus!
