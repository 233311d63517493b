use vstd::prelude::*;

use crate::parser::ast::id::{
    def::{AstExpressionId, AstGlobalDeclId, AstLocalDeclId},
    id::AstId,
    id_counts::AstIdCounts,
    snapshot::IdSnapshot,
};

verus! {

/// Hands out IDs of one kind in sequence.
pub struct IdGenerator<ID> {
    cur_id: ID,
}

impl<ID: AstId> IdGenerator<ID> {
    /// The ID the generator hands out next.
    pub closed spec fn current(&self) -> ID {
        self.cur_id
    }

    /// Returns the current ID and advances to the next one.
    pub fn next_id(&mut self) -> (r: ID)
        requires
            old(self).current().id_index() < usize::MAX,
        ensures
            r == old(self).current(),
            final(self).current().id_index() == old(self).current().id_index() + 1,
    {
        let id = self.cur_id;
        self.cur_id = id.next_id();
        id
    }

    /// The ID that will be handed out next.
    pub fn peek(&self) -> (r: ID)
        ensures
            r == self.current(),
    {
        self.cur_id
    }
}

impl<ID: AstId> Default for IdGenerator<ID> {
    /// A generator that starts at the first ID.
    fn default() -> (r: Self)
        ensures
            r.current().id_index() == 0,
    {
        IdGenerator { cur_id: ID::first() }
    }
}

/// Hands out expression, global and local declaration IDs.
pub struct IdBuilder {
    expressions: IdGenerator<AstExpressionId>,
    globals: IdGenerator<AstGlobalDeclId>,
    locals: IdGenerator<AstLocalDeclId>,
}

impl IdBuilder {
    /// How many expression IDs were handed out.
    pub closed spec fn expression_count(&self) -> nat {
        self.expressions.current().id_index()
    }

    /// How many global declaration IDs were handed out.
    pub closed spec fn global_count(&self) -> nat {
        self.globals.current().id_index()
    }

    /// How many local declaration IDs were handed out.
    pub closed spec fn local_count(&self) -> nat {
        self.locals.current().id_index()
    }

    pub fn new_expr_id(&mut self) -> (r: AstExpressionId)
        requires
            old(self).expression_count() < usize::MAX,
        ensures
            r.id_index() == old(self).expression_count(),
            final(self).expression_count() == old(self).expression_count() + 1,
            final(self).global_count() == old(self).global_count(),
            final(self).local_count() == old(self).local_count(),
    {
        self.expressions.next_id()
    }

    pub fn new_global_id(&mut self) -> (r: AstGlobalDeclId)
        requires
            old(self).global_count() < usize::MAX,
        ensures
            r.id_index() == old(self).global_count(),
            final(self).global_count() == old(self).global_count() + 1,
            final(self).expression_count() == old(self).expression_count(),
            final(self).local_count() == old(self).local_count(),
    {
        self.globals.next_id()
    }

    pub fn new_local_id(&mut self) -> (r: AstLocalDeclId)
        requires
            old(self).local_count() < usize::MAX,
        ensures
            r.id_index() == old(self).local_count(),
            final(self).local_count() == old(self).local_count() + 1,
            final(self).expression_count() == old(self).expression_count(),
            final(self).global_count() == old(self).global_count(),
    {
        self.locals.next_id()
    }

    /// The IDs that will be handed out next, one of each kind.
    pub fn snapshot(&self) -> (r: IdSnapshot)
        ensures
            r.expression.id_index() == self.expression_count(),
            r.global.id_index() == self.global_count(),
            r.local.id_index() == self.local_count(),
    {
        IdSnapshot { expression: self.expressions.peek(), global: self.globals.peek(), local: self.locals.peek() }
    }

    /// How many IDs of each kind were handed out.
    pub fn id_counts(&self) -> (r: AstIdCounts)
        ensures
            r.expression_count == self.expression_count(),
            r.global_decl_count == self.global_count(),
            r.local_decl_count == self.local_count(),
    {
        AstIdCounts {
            global_decl_count: self.globals.peek().as_index(),
            local_decl_count: self.locals.peek().as_index(),
            expression_count: self.expressions.peek().as_index(),
        }
    }
}

impl Default for IdBuilder {
    /// A builder that has handed out no ID yet.
    fn default() -> (r: Self)
        ensures
            r.expression_count() == 0,
            r.global_count() == 0,
            r.local_count() == 0,
    {
        IdBuilder { expressions: IdGenerator::default(), globals: IdGenerator::default(), locals: IdGenerator::default() }
    }
}

/// IDs handed out one after another are distinct: each call of
/// `new_expr_id` returns an index no earlier call returned.
pub proof fn lemma_fresh_ids(first: AstExpressionId, second: AstExpressionId, count_at_first: nat)
    requires
        first.id_index() == count_at_first,
        second.id_index() >= count_at_first + 1,
    ensures
        first != second,
{
}

} // verus!
