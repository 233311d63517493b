use vstd::prelude::*;

use crate::parser::{ast::type_expr::type_expr::TypeExpression, token::ident::Ident};

verus! {

#[derive(Debug)]
pub enum EnumVariantType {
    TypeExpression(TypeExpression),
    Empty,
}

/// A variant of an enum type: a name with an optional payload type.
#[derive(Debug)]
pub struct EnumVariant {
    pub name: Ident,
    pub ty: EnumVariantType,
}

impl EnumVariant {
    pub fn new(name: Ident, ty: EnumVariantType) -> (r: Self)
        ensures
            r.name == name,
            r.ty == ty,
    {
        EnumVariant { name, ty }
    }
}

#[derive(Debug)]
pub struct EnumTypeDecl {
    pub variants: Vec<EnumVariant>,
}

impl EnumTypeDecl {
    pub fn new(variants: Vec<EnumVariant>) -> (r: Self)
        ensures
            r.variants == variants,
    {
        EnumTypeDecl { variants }
    }

    pub fn variants(&self) -> (r: &[EnumVariant])
        ensures
            r@ == self.variants@,
    {
        self.variants.as_slice()
    }
}

} // verus!
