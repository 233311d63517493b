use vstd::prelude::*;

use crate::parser::{ast::expression::Expression, token::ident::Ident};

verus! {

/// Whether a declared variable can be assigned again.
#[derive(Clone, Copy, Debug, PartialEq, Eq, Structural)]
pub enum Mutability {
    Mutable,
    Immutable,
}

/// What an assignment does: declare a variable, or give one a new value.
#[derive(Clone, Copy, Debug, PartialEq, Eq, Structural)]
pub enum AssignmentKind {
    Declaration(Mutability),
    Rebind,
}

/// `let name = expr`, `mut name = expr` or `name = expr`, with the name
/// not yet resolved.
#[derive(Debug)]
pub struct AssignmentStatement {
    pub kind: AssignmentKind,
    pub var: Ident,
    pub expr: Expression,
}

impl AssignmentStatement {
    pub fn new_let(var: Ident, expr: Expression) -> (r: Self)
        ensures
            r == (AssignmentStatement { kind: AssignmentKind::Declaration(Mutability::Immutable), var, expr }),
    {
        AssignmentStatement { var, expr, kind: AssignmentKind::Declaration(Mutability::Immutable) }
    }

    pub fn new_mut(var: Ident, expr: Expression) -> (r: Self)
        ensures
            r == (AssignmentStatement { kind: AssignmentKind::Declaration(Mutability::Mutable), var, expr }),
    {
        AssignmentStatement { var, expr, kind: AssignmentKind::Declaration(Mutability::Mutable) }
    }

    pub fn new_rebind(var: Ident, expr: Expression) -> (r: Self)
        ensures
            r == (AssignmentStatement { kind: AssignmentKind::Rebind, var, expr }),
    {
        AssignmentStatement { var, expr, kind: AssignmentKind::Rebind }
    }

    pub fn var(&self) -> (r: &Ident)
        ensures
            *r == self.var,
    {
        &self.var
    }

    pub fn expr(&self) -> (r: &Expression)
        ensures
            *r == self.expr,
    {
        &self.expr
    }

    pub fn kind(&self) -> (r: &AssignmentKind)
        ensures
            *r == self.kind,
    {
        &self.kind
    }
}

} // verus!
