use vstd::prelude::*;

use crate::parser::{
    ast::{enum_type_decl::EnumTypeDecl, type_expr::type_expr::TypeExpression},
    token::ident::Ident,
};

verus! {

#[derive(Debug)]
pub enum TypeDeclVariant {
    Enum(EnumTypeDecl),
    Alias(TypeExpression),
}

/// `type Name = ...`.
#[derive(Debug)]
pub struct TypeDecl {
    pub name: Ident,
    pub decl: TypeDeclVariant,
}

impl TypeDecl {
    pub fn new(name: Ident, decl: TypeDeclVariant) -> (r: Self)
        ensures
            r.name == name,
            r.decl == decl,
    {
        TypeDecl { name, decl }
    }
}

} // verus!
