use vstd::prelude::*;

use crate::{
    error::JangResult,
    parser::{
        ast::{
            expression::{Expression, ExpressionVariant},
            id::{builder::IdBuilder, id::AstId, id_counts::AstIdCounts},
            var::{
                var_decl::{GlobalDecl, LocalDecl},
                var_decl_map::{GlobalDeclState, VarDeclMap},
                var_ref::VarRef,
            },
        },
        token::ident::Ident,
    },
};

verus! {

/// The state of building an AST: the IDs handed out so far and the names in
/// scope.
pub struct AstBuilderContext {
    pub id_builder: IdBuilder,
    pub var_decl_map: VarDeclMap,
}

impl AstBuilderContext {

    /// An expression with a fresh ID.
    pub fn new_expression(&mut self, variant: ExpressionVariant) -> (r: Expression)
        requires
            old(self).id_builder.expression_count() < usize::MAX,
        ensures
            r.id.id_index() == old(self).id_builder.expression_count(),
            r.variant == variant,
            final(self).id_builder.expression_count() == old(self).id_builder.expression_count() + 1,
            final(self).id_builder.global_count() == old(self).id_builder.global_count(),
            final(self).id_builder.local_count() == old(self).id_builder.local_count(),
            final(self).var_decl_map == old(self).var_decl_map,
    {
        let id = self.id_builder.new_expr_id();
        Expression::new(id, variant)
    }

    /// Declares a global name; see [`VarDeclMap::new_global_decl`].
    pub fn new_global_decl(&mut self, ident: Ident) -> (r: JangResult<GlobalDecl>)
        requires
            old(self).var_decl_map.global(ident@) is None ==> old(self).id_builder.global_count() < usize::MAX,
        ensures
            final(self).var_decl_map.local_scopes() == old(self).var_decl_map.local_scopes(),
            final(self).id_builder.expression_count() == old(self).id_builder.expression_count(),
            final(self).id_builder.local_count() == old(self).id_builder.local_count(),
            match old(self).var_decl_map.global(ident@) {
                Some(info) => if info.state == GlobalDeclState::Resolved {
                    &&& r is Err
                    &&& r->Err_0 is Parse
                    &&& r->Err_0->Parse_0.kind is DuplicateIdent
                    &&& r->Err_0->Parse_0.kind->DuplicateIdent_ident@ == ident@
                    &&& r->Err_0->Parse_0.span == crate::parser::ast::var::var_decl_map::first_name(
                        old(self).var_decl_map.global_entries(),
                        ident@,
                    )->Some_0.spec_span()
                } else {
                    &&& r is Ok
                    &&& r->Ok_0.id == info.id
                    &&& r->Ok_0.name == ident
                },
                None => {
                    &&& r is Ok
                    &&& r->Ok_0.id.id_index() == old(self).id_builder.global_count()
                    &&& r->Ok_0.name == ident
                },
            },
            r is Ok ==> final(self).var_decl_map.global(ident@) == Some(
                crate::parser::ast::var::var_decl_map::GlobalDeclInfo { id: r->Ok_0.id, state: GlobalDeclState::Resolved },
            ),
    {
        let r = self.var_decl_map.new_global_decl(ident, &mut self.id_builder);
        proof {
            if r is Ok {
                let e = self.var_decl_map.global_entries();
                assert(e.last().0@ == ident@);
            }
        }
        r
    }

    /// Declares a local in the innermost scope; see
    /// [`VarDeclMap::new_local_decl`].
    pub fn new_local_decl(&mut self, ident: Ident) -> (r: LocalDecl)
        requires
            old(self).var_decl_map.local_scopes().len() > 0,
            old(self).id_builder.local_count() < usize::MAX,
        ensures
            r.id.id_index() == old(self).id_builder.local_count(),
            r.name == ident,
            final(self).id_builder.local_count() == old(self).id_builder.local_count() + 1,
            final(self).id_builder.expression_count() == old(self).id_builder.expression_count(),
            final(self).id_builder.global_count() == old(self).id_builder.global_count(),
            final(self).var_decl_map.global_entries() == old(self).var_decl_map.global_entries(),
            final(self).var_decl_map.local_scopes() == old(self).var_decl_map.local_scopes().update(
                old(self).var_decl_map.local_scopes().len() - 1,
                old(self).var_decl_map.local_scopes().last().push((ident, r.id)),
            ),
    {
        self.var_decl_map.new_local_decl(ident, &mut self.id_builder)
    }

    /// Resolves a use of a name; see [`VarDeclMap::var_ref`].
    pub fn new_var_ref(&mut self, ident: Ident) -> (r: VarRef)
        requires
            old(self).var_decl_map.resolve(ident@) is None ==> old(self).id_builder.global_count() < usize::MAX,
        ensures
            final(self).var_decl_map.local_scopes() == old(self).var_decl_map.local_scopes(),
            final(self).id_builder.expression_count() == old(self).id_builder.expression_count(),
            final(self).id_builder.local_count() == old(self).id_builder.local_count(),
            match old(self).var_decl_map.resolve(ident@) {
                Some(id) => r == VarRef::spec_from_id(id, ident)
                    && final(self).id_builder.global_count() == old(self).id_builder.global_count(),
                None => {
                    &&& r is Global
                    &&& r->Global_0.id.id_index() == old(self).id_builder.global_count()
                    &&& r->Global_0.name == ident
                    &&& final(self).id_builder.global_count() == old(self).id_builder.global_count() + 1
                },
            },
    {
        self.var_decl_map.var_ref(ident, &mut self.id_builder)
    }

    pub fn enter_block_scope(&mut self)
        ensures
            final(self).id_builder == old(self).id_builder,
            final(self).var_decl_map.global_entries() == old(self).var_decl_map.global_entries(),
            final(self).var_decl_map.local_scopes() == old(self).var_decl_map.local_scopes().push(Seq::empty()),
    {
        self.var_decl_map.enter_block_scope();
    }

    pub fn exit_block_scope(&mut self)
        requires
            old(self).var_decl_map.local_scopes().len() > 0,
        ensures
            final(self).id_builder == old(self).id_builder,
            final(self).var_decl_map.global_entries() == old(self).var_decl_map.global_entries(),
            final(self).var_decl_map.local_scopes() == old(self).var_decl_map.local_scopes().drop_last(),
    {
        self.var_decl_map.exit_block_scope();
    }

    pub fn id_counts(&self) -> (r: AstIdCounts)
        ensures
            r.expression_count == self.id_builder.expression_count(),
            r.global_decl_count == self.id_builder.global_count(),
            r.local_decl_count == self.id_builder.local_count(),
    {
        self.id_builder.id_counts()
    }
}

impl Default for AstBuilderContext {
    /// A context that has handed out no ID and has no open scope.
    fn default() -> (r: Self)
        ensures
            r.id_builder.expression_count() == 0,
            r.id_builder.global_count() == 0,
            r.id_builder.local_count() == 0,
            r.var_decl_map.global_entries().len() == 0,
            r.var_decl_map.local_scopes().len() == 0,
    {
        AstBuilderContext { id_builder: IdBuilder::default(), var_decl_map: VarDeclMap::default() }
    }
}

} // verus!
