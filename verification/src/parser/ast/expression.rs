use vstd::prelude::*;

use crate::parser::ast::{
    binary_expression::BinaryExpression, call_expression::CallExpression,
    dot_expression::DotExpression, id::def::AstExpressionId, literal_expression::LiteralExpression,
    unary_experssion::UnaryExpression, var::var_ref::VarRef,
};

verus! {

/// The kinds of expression.
#[derive(Debug)]
pub enum ExpressionVariant {
    Literal(LiteralExpression),
    VarRef(VarRef),
    BinaryExpression(BinaryExpression),
    UnaryExpression(UnaryExpression),
    CallExpression(CallExpression),
    DotExpression(DotExpression),
}

/// An expression together with its ID.
#[derive(Debug)]
pub struct Expression {
    pub id: AstExpressionId,
    pub variant: ExpressionVariant,
}

impl Expression {
    pub fn new(id: AstExpressionId, variant: ExpressionVariant) -> (r: Self)
        ensures
            r.id == id,
            r.variant == variant,
    {
        Expression { id, variant }
    }

    pub fn id(&self) -> (r: AstExpressionId)
        ensures
            r == self.id,
    {
        self.id
    }

    pub fn variant(&self) -> (r: &ExpressionVariant)
        ensures
            *r == self.variant,
    {
        &self.variant
    }
}

} // verus!
