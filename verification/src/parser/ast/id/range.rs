use vstd::prelude::*;

use crate::parser::ast::id::{
    adt::map::IdMap,
    def::{AstExpressionId, AstGlobalDeclId, AstLocalDeclId},
    id::AstId,
    snapshot::IdSnapshot,
};

verus! {

/// The IDs of each kind handed out between two snapshots.
#[derive(Clone, Debug)]
pub struct AstIdRange {
    pub start: IdSnapshot,
    pub end: IdSnapshot,
}

impl AstIdRange {
    /// An empty map over the expression IDs of the range.
    pub fn new_expression_id_map<T>(&self) -> (r: IdMap<AstExpressionId, T>)
        requires
            self.start.expression.id_index() <= self.end.expression.id_index(),
        ensures
            r.offset() == self.start.expression,
            r.len() == self.end.expression.id_index() - self.start.expression.id_index(),
            forall|i: int| 0 <= i < r.len() ==> #[trigger] r.entries()[i] is None,
    {
        IdMap::from_range(self.start.expression, self.end.expression)
    }

    /// An empty map over the local declaration IDs of the range.
    pub fn new_local_id_map<T>(&self) -> (r: IdMap<AstLocalDeclId, T>)
        requires
            self.start.local.id_index() <= self.end.local.id_index(),
        ensures
            r.offset() == self.start.local,
            r.len() == self.end.local.id_index() - self.start.local.id_index(),
            forall|i: int| 0 <= i < r.len() ==> #[trigger] r.entries()[i] is None,
    {
        IdMap::from_range(self.start.local, self.end.local)
    }

    /// An empty map over the global declaration IDs of the range.
    pub fn new_global_id_map<T>(&self) -> (r: IdMap<AstGlobalDeclId, T>)
        requires
            self.start.global.id_index() <= self.end.global.id_index(),
        ensures
            r.offset() == self.start.global,
            r.len() == self.end.global.id_index() - self.start.global.id_index(),
            forall|i: int| 0 <= i < r.len() ==> #[trigger] r.entries()[i] is None,
    {
        IdMap::from_range(self.start.global, self.end.global)
    }
}

} // verus!
