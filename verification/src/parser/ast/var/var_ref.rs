use vstd::prelude::*;

use crate::parser::{
    ast::{
        id::def::AstDeclId,
        var::var_decl::{GlobalDecl, LocalDecl},
    },
    token::ident::Ident,
};

verus! {

/// A use of a variable, resolved to the declaration it refers to.
#[derive(Clone, Debug)]
pub enum VarRef {
    Global(GlobalDecl),
    Local(LocalDecl),
}

impl VarRef {
    pub open spec fn spec_from_id(id: AstDeclId, name: Ident) -> VarRef {
        match id {
            AstDeclId::Global(g) => VarRef::Global(GlobalDecl { id: g, name }),
            AstDeclId::Local(l) => VarRef::Local(LocalDecl { id: l, name }),
        }
    }

    /// The reference to the declaration with the given ID.
    pub fn from_id(id: AstDeclId, name: Ident) -> (r: Self)
        ensures
            r == VarRef::spec_from_id(id, name),
    {
        match id {
            AstDeclId::Global(id) => VarRef::Global(GlobalDecl::new(id, name)),
            AstDeclId::Local(id) => VarRef::Local(LocalDecl::new(id, name)),
        }
    }

    pub open spec fn spec_name(&self) -> Ident {
        match self {
            VarRef::Global(g) => g.name,
            VarRef::Local(l) => l.name,
        }
    }

    pub fn name(&self) -> (r: &Ident)
        ensures
            *r == self.spec_name(),
    {
        match self {
            VarRef::Global(global_decl) => global_decl.name(),
            VarRef::Local(local_decl) => local_decl.name(),
        }
    }
}

} // verus!
