use vstd::prelude::*;

verus! {

/// How many IDs of each kind an AST uses.
#[derive(Clone, Debug)]
pub struct AstIdCounts {
    pub global_decl_count: usize,
    pub local_decl_count: usize,
    pub expression_count: usize,
}

impl AstIdCounts {
    pub fn global_decl_count(&self) -> (r: usize)
        ensures
            r == self.global_decl_count,
    {
        self.global_decl_count
    }

    pub fn local_decl_count(&self) -> (r: usize)
        ensures
            r == self.local_decl_count,
    {
        self.local_decl_count
    }

    pub fn expression_count(&self) -> (r: usize)
        ensures
            r == self.expression_count,
    {
        self.expression_count
    }
}

} // verus!
