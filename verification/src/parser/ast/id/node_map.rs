use vstd::prelude::*;

verus! {

/// Per-node data for each kind of AST ID.
#[derive(Debug)]
pub struct NodeMap<ExprT, GlobalT, LocalT> {
    pub expressions: Vec<ExprT>,
    pub globals: Vec<GlobalT>,
    pub locals: Vec<LocalT>,
}

impl<ExprT, GlobalT, LocalT> NodeMap<ExprT, GlobalT, LocalT> {
    pub fn new(expressions: Vec<ExprT>, globals: Vec<GlobalT>, locals: Vec<LocalT>) -> (r: Self)
        ensures
            r.expressions == expressions,
            r.globals == globals,
            r.locals == locals,
    {
        NodeMap { expressions, globals, locals }
    }
}

} // verus!
