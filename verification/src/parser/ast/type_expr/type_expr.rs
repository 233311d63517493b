use vstd::prelude::*;

use crate::parser::{ast::type_expr::primitive::PrimitiveType, token::ident::Ident};

verus! {

#[derive(Debug)]
pub struct TypeExpressionList {
    pub expressions: Vec<TypeExpression>,
}

impl TypeExpressionList {
    pub fn new(expressions: Vec<TypeExpression>) -> (r: Self)
        ensures
            r.expressions == expressions,
    {
        TypeExpressionList { expressions }
    }

    pub fn empty() -> (r: Self)
        ensures
            r.expressions@.len() == 0,
    {
        TypeExpressionList { expressions: Vec::new() }
    }

    pub fn expressions(&self) -> (r: &[TypeExpression])
        ensures
            r@ == self.expressions@,
    {
        self.expressions.as_slice()
    }
}

/// The type of a function: `(args) -> ret`.
#[derive(Debug)]
pub struct InlineFn {
    pub args: TypeExpressionList,
    pub return_type: Box<TypeExpression>,
}

impl InlineFn {
    pub fn args(&self) -> (r: &[TypeExpression])
        ensures
            r@ == self.args.expressions@,
    {
        self.args.expressions()
    }

    pub fn return_type(&self) -> (r: &TypeExpression)
        ensures
            *r == *self.return_type,
    {
        &self.return_type
    }
}

/// A field of a structured type: `name: type`.
#[derive(Debug)]
pub struct StructuredTypeField {
    pub name: Ident,
    pub ty: TypeExpression,
}

/// A structured type: a list of named fields.
#[derive(Debug)]
pub struct StructuredTypeDecl {
    pub fields: Vec<StructuredTypeField>,
}

impl StructuredTypeDecl {
    pub fn new(fields: Vec<StructuredTypeField>) -> (r: Self)
        ensures
            r.fields == fields,
    {
        StructuredTypeDecl { fields }
    }

    pub fn fields(&self) -> (r: &[StructuredTypeField])
        ensures
            r@ == self.fields@,
    {
        self.fields.as_slice()
    }
}

#[derive(Debug)]
pub enum TypeExpressionVariant {
    Unit,
    Primitive(PrimitiveType),
    Named(Ident),
    AnonymousStruct(StructuredTypeDecl),
    InlineFn(InlineFn),
}

#[derive(Debug)]
pub struct TypeExpression {
    pub variant: TypeExpressionVariant,
}

impl TypeExpression {
    pub fn new_unit() -> (r: Self)
        ensures
            r.variant == TypeExpressionVariant::Unit,
    {
        TypeExpression { variant: TypeExpressionVariant::Unit }
    }

    pub fn new_primitive(primitive: PrimitiveType) -> (r: Self)
        ensures
            r.variant == TypeExpressionVariant::Primitive(primitive),
    {
        TypeExpression { variant: TypeExpressionVariant::Primitive(primitive) }
    }

    pub fn new_named(ident: Ident) -> (r: Self)
        ensures
            r.variant == TypeExpressionVariant::Named(ident),
    {
        TypeExpression { variant: TypeExpressionVariant::Named(ident) }
    }

    pub fn new_anon_struct(type_decl: StructuredTypeDecl) -> (r: Self)
        ensures
            r.variant == TypeExpressionVariant::AnonymousStruct(type_decl),
    {
        TypeExpression { variant: TypeExpressionVariant::AnonymousStruct(type_decl) }
    }

    pub fn new_inline_fn(args: TypeExpressionList, return_type: TypeExpression) -> (r: Self)
        ensures
            r.variant == TypeExpressionVariant::InlineFn(
                InlineFn { args, return_type: Box::new(return_type) },
            ),
    {
        TypeExpression {
            variant: TypeExpressionVariant::InlineFn(InlineFn { args, return_type: Box::new(return_type) }),
        }
    }

    pub fn variant(&self) -> (r: &TypeExpressionVariant)
        ensures
            *r == self.variant,
    {
        &self.variant
    }
}

} // verus!
