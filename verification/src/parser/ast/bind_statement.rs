use vstd::prelude::*;

use crate::parser::ast::{
    expression::Expression, type_expr::type_expr::TypeExpression, var::var_decl::LocalDecl,
};

verus! {

/// Whether a bound variable may be rebound later.
#[derive(Copy, Clone, Debug, PartialEq, Eq, Structural)]
pub enum Mutability {
    Mutable,
    Immutable,
}

/// `let x = e` or `mut x = e`, with an optional type annotation.
#[derive(Debug)]
pub struct BindStatement {
    pub mutability: Mutability,
    pub var: LocalDecl,
    pub var_type: Option<TypeExpression>,
    pub expr: Expression,
}

impl BindStatement {
    pub fn new_let(var: LocalDecl, var_type: Option<TypeExpression>, expr: Expression) -> (r: Self)
        ensures
            r == (BindStatement { mutability: Mutability::Immutable, var, var_type, expr }),
    {
        BindStatement { mutability: Mutability::Immutable, var, var_type, expr }
    }

    pub fn new_mut(var: LocalDecl, var_type: Option<TypeExpression>, expr: Expression) -> (r: Self)
        ensures
            r == (BindStatement { mutability: Mutability::Mutable, var, var_type, expr }),
    {
        BindStatement { mutability: Mutability::Mutable, var, var_type, expr }
    }

    pub fn mutability(&self) -> (r: &Mutability)
        ensures
            *r == self.mutability,
    {
        &self.mutability
    }

    pub fn var(&self) -> (r: &LocalDecl)
        ensures
            *r == self.var,
    {
        &self.var
    }

    pub fn var_type(&self) -> (r: Option<&TypeExpression>)
        ensures
            r == match self.var_type {
                Some(t) => Some(&t),
                None => None::<&TypeExpression>,
            },
    {
        self.var_type.as_ref()
    }

    pub fn expr(&self) -> (r: &Expression)
        ensures
            *r == self.expr,
    {
        &self.expr
    }
}

} // verus!
