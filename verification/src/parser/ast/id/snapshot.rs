use vstd::prelude::*;

use crate::parser::ast::id::{
    def::{AstExpressionId, AstGlobalDeclId, AstLocalDeclId},
    range::AstIdRange,
};

verus! {

/// The IDs an [`crate::parser::ast::id::builder::IdBuilder`] would hand out
/// next, one of each kind.
#[derive(Clone, Debug)]
pub struct IdSnapshot {
    pub expression: AstExpressionId,
    pub global: AstGlobalDeclId,
    pub local: AstLocalDeclId,
}

impl IdSnapshot {
    /// The IDs handed out between this snapshot and `end`.
    pub fn to(self, end: IdSnapshot) -> (r: AstIdRange)
        ensures
            r.start == self,
            r.end == end,
    {
        AstIdRange { start: self, end }
    }
}

} // verus!
