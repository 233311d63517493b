use vstd::prelude::*;

use crate::parser::ast::{
    block::Block,
    type_expr::type_expr::TypeExpression,
    var::var_decl::{GlobalDecl, LocalDecl},
};

verus! {

/// `fn name(params) -> ret { body }`.
#[derive(Debug)]
pub struct FunctionDecl {
    pub name: GlobalDecl,
    pub parameters: FunctionParameters,
    pub return_type: Option<TypeExpression>,
    pub body: Block,
}

impl FunctionDecl {
    pub fn new(
        name: GlobalDecl,
        parameters: FunctionParameters,
        return_type: Option<TypeExpression>,
        body: Block,
    ) -> (r: Self)
        ensures
            r == (FunctionDecl { name, parameters, return_type, body }),
    {
        FunctionDecl { name, parameters, return_type, body }
    }

    pub fn name_decl(&self) -> (r: &GlobalDecl)
        ensures
            *r == self.name,
    {
        &self.name
    }

    pub fn parameters(&self) -> (r: &[FunctionParameter])
        ensures
            r@ == self.parameters.parameters@,
    {
        self.parameters.parameters()
    }

    pub fn return_type(&self) -> (r: Option<&TypeExpression>)
        ensures
            r == match self.return_type {
                Some(t) => Some(&t),
                None => None::<&TypeExpression>,
            },
    {
        self.return_type.as_ref()
    }

    pub fn body(&self) -> (r: &Block)
        ensures
            *r == self.body,
    {
        &self.body
    }
}

#[derive(Debug)]
pub struct FunctionParameters {
    pub parameters: Vec<FunctionParameter>,
}

impl FunctionParameters {
    pub fn new(parameters: Vec<FunctionParameter>) -> (r: Self)
        ensures
            r.parameters == parameters,
    {
        FunctionParameters { parameters }
    }

    pub fn parameters(&self) -> (r: &[FunctionParameter])
        ensures
            r@ == self.parameters@,
    {
        self.parameters.as_slice()
    }
}

/// `name: type`.
#[derive(Debug)]
pub struct FunctionParameter {
    pub var: LocalDecl,
    pub ty: TypeExpression,
}

impl FunctionParameter {
    pub fn new(var: LocalDecl, ty: TypeExpression) -> (r: Self)
        ensures
            r.var == var,
            r.ty == ty,
    {
        FunctionParameter { var, ty }
    }

    pub fn var(&self) -> (r: &LocalDecl)
        ensures
            *r == self.var,
    {
        &self.var
    }

    pub fn ty(&self) -> (r: &TypeExpression)
        ensures
            *r == self.ty,
    {
        &self.ty
    }
}

} // verus!
