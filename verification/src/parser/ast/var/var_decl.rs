use vstd::prelude::*;

use crate::parser::{
    ast::id::def::{AstGlobalDeclId, AstLocalDeclId},
    token::ident::Ident,
};

verus! {

/// A declaration of a variable: its ID and its name.
#[derive(Clone, Debug)]
pub struct VarDecl<ID> {
    pub id: ID,
    pub name: Ident,
}

impl<ID: Copy> VarDecl<ID> {
    pub fn new(id: ID, name: Ident) -> (r: Self)
        ensures
            r.id == id,
            r.name == name,
    {
        VarDecl { id, name }
    }

    pub fn id(&self) -> (r: ID)
        ensures
            r == self.id,
    {
        self.id
    }

    pub fn name(&self) -> (r: &Ident)
        ensures
            *r == self.name,
    {
        &self.name
    }
}

pub type GlobalDecl = VarDecl<AstGlobalDeclId>;

pub type LocalDecl = VarDecl<AstLocalDeclId>;

} // verus!
