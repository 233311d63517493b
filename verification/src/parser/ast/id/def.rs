use vstd::prelude::*;

use crate::parser::ast::id::id::AstId;

verus! {

/// ID to describe an expression in the AST.
#[derive(Clone, Copy, Debug, Hash, PartialEq, Eq, Structural)]
pub struct AstExpressionId(pub usize);

/// ID for a local name decl from a function parameter or local binding.
#[derive(Clone, Copy, Debug, Hash, PartialEq, Eq, Structural)]
pub struct AstLocalDeclId(pub usize);

/// ID for a global name decl.
#[derive(Clone, Copy, Debug, Hash, PartialEq, Eq, Structural)]
pub struct AstGlobalDeclId(pub usize);

impl AstId for AstExpressionId {
    open spec fn id_index(&self) -> nat {
        self.0 as nat
    }

    proof fn lemma_index_injective(a: Self, b: Self) {
    }

    proof fn lemma_index_bounded(a: Self) {
    }

    fn first() -> (r: Self) {
        AstExpressionId(0)
    }

    fn next_id(&self) -> (r: Self) {
        AstExpressionId(self.0 + 1)
    }

    fn as_index(&self) -> (r: usize) {
        self.0
    }

    fn from_index(index: usize) -> (r: Self) {
        AstExpressionId(index)
    }
}

impl AstId for AstLocalDeclId {
    open spec fn id_index(&self) -> nat {
        self.0 as nat
    }

    proof fn lemma_index_injective(a: Self, b: Self) {
    }

    proof fn lemma_index_bounded(a: Self) {
    }

    fn first() -> (r: Self) {
        AstLocalDeclId(0)
    }

    fn next_id(&self) -> (r: Self) {
        AstLocalDeclId(self.0 + 1)
    }

    fn as_index(&self) -> (r: usize) {
        self.0
    }

    fn from_index(index: usize) -> (r: Self) {
        AstLocalDeclId(index)
    }
}

impl AstId for AstGlobalDeclId {
    open spec fn id_index(&self) -> nat {
        self.0 as nat
    }

    proof fn lemma_index_injective(a: Self, b: Self) {
    }

    proof fn lemma_index_bounded(a: Self) {
    }

    fn first() -> (r: Self) {
        AstGlobalDeclId(0)
    }

    fn next_id(&self) -> (r: Self) {
        AstGlobalDeclId(self.0 + 1)
    }

    fn as_index(&self) -> (r: usize) {
        self.0
    }

    fn from_index(index: usize) -> (r: Self) {
        AstGlobalDeclId(index)
    }
}

/// The declaration a name refers to: a global or a local.
#[derive(Clone, Copy, Debug, PartialEq, Eq, Structural)]
pub enum AstDeclId {
    Global(AstGlobalDeclId),
    Local(AstLocalDeclId),
}

} // verus!
