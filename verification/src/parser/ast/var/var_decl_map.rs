use vstd::prelude::*;

use crate::{
    error::{is_duplicate_ident_error, JangError, JangResult},
    parser::{
        ast::{
            id::{
                builder::IdBuilder,
                def::{AstDeclId, AstGlobalDeclId, AstLocalDeclId},
                id::AstId,
            },
            var::{
                var_decl::{GlobalDecl, LocalDecl},
                var_ref::VarRef,
            },
        },
        token::ident::Ident,
    },
};

verus! {

/// Whether a global name has been declared or only referred to so far.
#[derive(Clone, Copy, Debug, PartialEq, Eq, Structural)]
pub enum GlobalDeclState {
    Unresolved,
    Resolved,
}

/// The ID of a global name and whether it has been declared.
#[derive(Clone, Copy, Debug, PartialEq, Eq, Structural)]
pub struct GlobalDeclInfo {
    pub id: AstGlobalDeclId,
    pub state: GlobalDeclState,
}

/// The value of the last entry with the given name, if any. Later entries
/// shadow earlier ones with the same name.
pub open spec fn find_name<V>(entries: Seq<(Ident, V)>, name: Seq<char>) -> Option<V>
    decreases entries.len(),
{
    if entries.len() == 0 {
        None
    } else if entries.last().0@ == name {
        Some(entries.last().1)
    } else {
        find_name(entries.drop_last(), name)
    }
}

/// The name of the first entry with the given name, if any: where the name
/// was first seen.
pub open spec fn first_name<V>(entries: Seq<(Ident, V)>, name: Seq<char>) -> Option<Ident>
    decreases entries.len(),
{
    if entries.len() == 0 {
        None
    } else {
        match first_name(entries.drop_last(), name) {
            Some(i) => Some(i),
            None => if entries.last().0@ == name {
                Some(entries.last().0)
            } else {
                None
            },
        }
    }
}

/// Finds the first entry with the given name.
fn find_first<'a, V>(entries: &'a Vec<(Ident, V)>, name: &Ident) -> (r: Option<&'a Ident>)
    ensures
        match first_name(entries@, name@) {
            Some(i) => r == Some(&i),
            None => r is None,
        },
{
    let mut i: usize = 0;
    proof {
        assert(entries@.subrange(0, 0) =~= Seq::<(Ident, V)>::empty());
    }
    while i < entries.len()
        invariant
            i <= entries@.len(),
            first_name(entries@.subrange(0, i as int), name@) is None,
        decreases entries@.len() - i,
    {
        proof {
            assert(entries@.subrange(0, i + 1).drop_last() =~= entries@.subrange(0, i as int));
        }
        if entries[i].0.same_name(name) {
            proof {
                lemma_first_name_extends(entries@, i + 1);
            }
            return Some(&entries[i].0);
        }
        i = i + 1;
    }
    proof {
        assert(entries@.subrange(0, i as int) =~= entries@);
    }
    None
}

/// The first entry with a name stays first when entries are added.
proof fn lemma_first_name_extends<V>(entries: Seq<(Ident, V)>, k: int)
    requires
        0 <= k <= entries.len(),
        first_name(entries.subrange(0, k), entries[k - 1].0@) == Some(entries[k - 1].0) || k == 0,
    ensures
        k > 0 ==> first_name(entries, entries[k - 1].0@) == Some(entries[k - 1].0),
    decreases entries.len(),
{
    if k > 0 {
        if k == entries.len() {
            assert(entries.subrange(0, k) =~= entries);
        } else {
            assert(entries.drop_last().subrange(0, k) =~= entries.subrange(0, k));
            assert(entries.drop_last()[k - 1] == entries[k - 1]);
            lemma_first_name_extends(entries.drop_last(), k);
        }
    }
}

/// A name that was seen has a first entry, which bears that name.
proof fn lemma_first_name_of_found<V>(entries: Seq<(Ident, V)>, name: Seq<char>)
    ensures
        find_name(entries, name) is Some ==> first_name(entries, name) is Some,
        first_name(entries, name) matches Some(i) ==> i@ == name,
    decreases entries.len(),
{
    if entries.len() > 0 {
        lemma_first_name_of_found(entries.drop_last(), name);
    }
}

/// The local that a name resolves to in a stack of scopes: the innermost
/// scope that binds the name decides.
pub open spec fn find_local(scopes: Seq<Seq<(Ident, AstLocalDeclId)>>, name: Seq<char>) -> Option<AstLocalDeclId>
    decreases scopes.len(),
{
    if scopes.len() == 0 {
        None
    } else {
        match find_name(scopes.last(), name) {
            Some(id) => Some(id),
            None => find_local(scopes.drop_last(), name),
        }
    }
}

/// Looks a name up in a list of entries, latest entry first.
fn find_entry<V: Copy>(entries: &Vec<(Ident, V)>, name: &Ident) -> (r: Option<V>)
    ensures
        r == find_name(entries@, name@),
{
    let mut i = entries.len();
    proof {
        assert(entries@.subrange(0, i as int) =~= entries@);
    }
    while i > 0
        invariant
            i <= entries@.len(),
            find_name(entries@, name@) == find_name(entries@.subrange(0, i as int), name@),
        decreases i,
    {
        let ghost prefix = entries@.subrange(0, i as int);
        if entries[i - 1].0.same_name(name) {
            return Some(entries[i - 1].1);
        }
        i = i - 1;
        proof {
            assert(prefix.drop_last() =~= entries@.subrange(0, i as int));
        }
    }
    None
}

/// A change to the stack of local scopes.
pub ghost enum ScopeStep {
    /// The scopes stay as they are.
    Keep,
    /// A local is declared in the innermost scope.
    Declare(Ident, AstLocalDeclId),
    /// A new, empty scope is opened.
    Enter,
    /// The innermost scope is closed.
    Exit,
}

/// The scopes after one step.
pub open spec fn step_scopes(scopes: Seq<Seq<(Ident, AstLocalDeclId)>>, step: ScopeStep) -> Seq<Seq<(Ident, AstLocalDeclId)>> {
    match step {
        ScopeStep::Keep => scopes,
        ScopeStep::Declare(ident, id) => scopes.update(scopes.len() - 1, scopes.last().push((ident, id))),
        ScopeStep::Enter => scopes.push(Seq::empty()),
        ScopeStep::Exit => scopes.drop_last(),
    }
}

/// The scopes after a sequence of steps, in order.
pub open spec fn run_scope_steps(scopes: Seq<Seq<(Ident, AstLocalDeclId)>>, steps: Seq<ScopeStep>) -> Seq<Seq<(Ident, AstLocalDeclId)>>
    decreases steps.len(),
{
    if steps.len() == 0 {
        scopes
    } else {
        step_scopes(run_scope_steps(scopes, steps.drop_last()), steps.last())
    }
}

/// Resolves the names of an AST as it is built: globals may be referred to
/// before they are declared; locals live in nested block scopes.
pub struct VarDeclMap {
    globals: Vec<(Ident, GlobalDeclInfo)>,
    locals: Vec<Vec<(Ident, AstLocalDeclId)>>,
}

impl VarDeclMap {
    /// The global names seen so far, each with its ID and state.
    pub closed spec fn global_entries(&self) -> Seq<(Ident, GlobalDeclInfo)> {
        self.globals@
    }

    /// The open block scopes, outermost first.
    pub closed spec fn local_scopes(&self) -> Seq<Seq<(Ident, AstLocalDeclId)>> {
        self.locals@.map_values(|scope: Vec<(Ident, AstLocalDeclId)>| scope@)
    }

    /// The global a name refers to, if it was seen.
    pub open spec fn global(&self, name: Seq<char>) -> Option<GlobalDeclInfo> {
        find_name(self.global_entries(), name)
    }

    /// The declaration a name resolves to: the innermost local, else a global.
    pub open spec fn resolve(&self, name: Seq<char>) -> Option<AstDeclId> {
        match find_local(self.local_scopes(), name) {
            Some(id) => Some(AstDeclId::Local(id)),
            None => match self.global(name) {
                Some(info) => Some(AstDeclId::Global(info.id)),
                None => None,
            },
        }
    }

    /// What declaring the global `ident` does, going from `self` and the ID
    /// counters `b0` to `after` and `b1` with result `r`: a name declared
    /// before is refused with the error that names its first occurrence; a
    /// name only referred to so far keeps its ID; a new name gets the next
    /// global ID.
    pub open spec fn global_decl_outcome(
        self,
        after: VarDeclMap,
        ident: Ident,
        b0: IdBuilder,
        b1: IdBuilder,
        r: JangResult<GlobalDecl>,
    ) -> bool {
        &&& after.local_scopes() == self.local_scopes()
        &&& match self.global(ident@) {
            Some(info) => if info.state == GlobalDeclState::Resolved {
                &&& r is Err
                &&& is_duplicate_ident_error(r->Err_0, first_name(self.global_entries(), ident@)->Some_0)
                &&& first_name(self.global_entries(), ident@)->Some_0@ == ident@
                &&& after.global_entries() == self.global_entries()
                &&& b1 == b0
            } else {
                &&& r == Ok::<GlobalDecl, JangError>(GlobalDecl { id: info.id, name: ident })
                &&& after.global_entries() == self.global_entries().push(
                    (ident, GlobalDeclInfo { id: info.id, state: GlobalDeclState::Resolved }),
                )
                &&& b1 == b0
            },
            None => {
                &&& r is Ok
                &&& r->Ok_0.id.id_index() == b0.global_count()
                &&& r->Ok_0.name == ident
                &&& after.global_entries() == self.global_entries().push(
                    (ident, GlobalDeclInfo { id: r->Ok_0.id, state: GlobalDeclState::Resolved }),
                )
                &&& b1.global_count() == b0.global_count() + 1
                &&& b1.expression_count() == b0.expression_count()
                &&& b1.local_count() == b0.local_count()
            },
        }
    }

    /// What resolving a use of `ident` does, going from `self` and `b0` to
    /// `after` and `b1` with result `r`: a known name gives its declaration;
    /// a new name becomes a placeholder global with the next global ID.
    pub open spec fn var_ref_outcome(self, after: VarDeclMap, ident: Ident, b0: IdBuilder, b1: IdBuilder, r: VarRef) -> bool {
        &&& after.local_scopes() == self.local_scopes()
        &&& match self.resolve(ident@) {
            Some(id) => {
                &&& r == VarRef::spec_from_id(id, ident)
                &&& after.global_entries() == self.global_entries()
                &&& b1 == b0
            },
            None => {
                &&& r is Global
                &&& r->Global_0.id.id_index() == b0.global_count()
                &&& r->Global_0.name == ident
                &&& after.global_entries() == self.global_entries().push(
                    (ident, GlobalDeclInfo { id: r->Global_0.id, state: GlobalDeclState::Unresolved }),
                )
                &&& b1.global_count() == b0.global_count() + 1
                &&& b1.expression_count() == b0.expression_count()
                &&& b1.local_count() == b0.local_count()
            },
        }
    }

    /// What declaring the local `ident` does: it gets the next local ID and
    /// is added to the innermost scope.
    pub open spec fn local_decl_outcome(self, after: VarDeclMap, ident: Ident, b0: IdBuilder, b1: IdBuilder, r: LocalDecl) -> bool {
        &&& r.id.id_index() == b0.local_count()
        &&& r.name == ident
        &&& b1.local_count() == b0.local_count() + 1
        &&& b1.expression_count() == b0.expression_count()
        &&& b1.global_count() == b0.global_count()
        &&& after.global_entries() == self.global_entries()
        &&& after.local_scopes() == step_scopes(self.local_scopes(), ScopeStep::Declare(ident, r.id))
    }

    /// Opens a new, empty block scope.
    pub fn enter_block_scope(&mut self)
        ensures
            final(self).global_entries() == old(self).global_entries(),
            final(self).local_scopes() == step_scopes(old(self).local_scopes(), ScopeStep::Enter),
    {
        self.locals.push(Vec::new());
        proof {
            assert(self.local_scopes() =~= old(self).local_scopes().push(Seq::empty()));
        }
    }

    /// Closes the innermost block scope.
    pub fn exit_block_scope(&mut self)
        requires
            old(self).local_scopes().len() > 0,
        ensures
            final(self).global_entries() == old(self).global_entries(),
            final(self).local_scopes() == step_scopes(old(self).local_scopes(), ScopeStep::Exit),
    {
        let _ = self.locals.pop();
        proof {
            assert(self.local_scopes() =~= old(self).local_scopes().drop_last());
        }
    }

    /// Returns a global decl for a declaration of that global identifier.
    /// A name seen only in references so far keeps its ID; a new name gets a
    /// new ID; a name declared before is a duplicate and an error.
    pub fn new_global_decl(&mut self, ident: Ident, id_builder: &mut IdBuilder) -> (r: JangResult<GlobalDecl>)
        requires
            old(self).global(ident@) is None ==> old(id_builder).global_count() < usize::MAX,
        ensures
            old(self).global_decl_outcome(*final(self), ident, *old(id_builder), *final(id_builder), r),
    {
        match find_entry(&self.globals, &ident) {
            Some(info) => {
                if info.state == GlobalDeclState::Resolved {
                    proof {
                        lemma_first_name_of_found(self.globals@, ident@);
                    }
                    let first = find_first(&self.globals, &ident).unwrap();
                    return Err(JangError::duplicate_ident(first));
                }
                let resolved = GlobalDeclInfo { id: info.id, state: GlobalDeclState::Resolved };
                self.globals.push((ident.clone(), resolved));
                Ok(GlobalDecl::new(info.id, ident))
            },
            None => {
                let id = id_builder.new_global_id();
                self.globals.push((ident.clone(), GlobalDeclInfo { id, state: GlobalDeclState::Resolved }));
                Ok(GlobalDecl::new(id, ident))
            },
        }
    }

    /// Returns a local decl for a local variable in the innermost scope. A
    /// later declaration of the same name shadows the earlier one.
    pub fn new_local_decl(&mut self, ident: Ident, id_builder: &mut IdBuilder) -> (r: LocalDecl)
        requires
            old(self).local_scopes().len() > 0,
            old(id_builder).local_count() < usize::MAX,
        ensures
            old(self).local_decl_outcome(*final(self), ident, *old(id_builder), *final(id_builder), r),
    {
        let new_id = id_builder.new_local_id();
        let mut scope = self.locals.pop().unwrap();
        scope.push((ident.clone(), new_id));
        self.locals.push(scope);
        proof {
            assert(self.local_scopes() =~= old(self).local_scopes().update(
                old(self).local_scopes().len() - 1,
                old(self).local_scopes().last().push((ident, new_id)),
            ));
        }
        LocalDecl::new(new_id, ident)
    }

    fn lookup_var_ref(&self, ident: &Ident) -> (r: Option<AstDeclId>)
        ensures
            r == self.resolve(ident@),
    {
        let mut i = self.locals.len();
        proof {
            assert(self.local_scopes().subrange(0, i as int) =~= self.local_scopes());
        }
        while i > 0
            invariant
                i <= self.locals@.len(),
                find_local(self.local_scopes(), ident@) == find_local(self.local_scopes().subrange(0, i as int), ident@),
            decreases i,
        {
            let ghost prefix = self.local_scopes().subrange(0, i as int);
            if let Some(id) = find_entry(&self.locals[i - 1], ident) {
                return Some(AstDeclId::Local(id));
            }
            i = i - 1;
            proof {
                assert(prefix.drop_last() =~= self.local_scopes().subrange(0, i as int));
            }
        }
        proof {
            assert(self.local_scopes().subrange(0, 0) =~= Seq::<Seq<(Ident, AstLocalDeclId)>>::empty());
        }
        match find_entry(&self.globals, ident) {
            Some(info) => Some(AstDeclId::Global(info.id)),
            None => None,
        }
    }

    /// Resolves a use of a name. A name not seen before becomes a new global
    /// that is not declared yet, as globals may be used before they are
    /// declared.
    pub fn var_ref(&mut self, ident: Ident, id_builder: &mut IdBuilder) -> (r: VarRef)
        requires
            old(self).resolve(ident@) is None ==> old(id_builder).global_count() < usize::MAX,
        ensures
            old(self).var_ref_outcome(*final(self), ident, *old(id_builder), *final(id_builder), r),
    {
        if let Some(id) = self.lookup_var_ref(&ident) {
            return VarRef::from_id(id, ident);
        }
        let id = id_builder.new_global_id();
        self.globals.push((ident.clone(), GlobalDeclInfo { id, state: GlobalDeclState::Unresolved }));
        VarRef::Global(GlobalDecl::new(id, ident))
    }
}

impl Default for VarDeclMap {
    /// A map with no names and no open scope.
    fn default() -> (r: Self)
        ensures
            r.global_entries().len() == 0,
            r.local_scopes().len() == 0,
    {
        let r = VarDeclMap { globals: Vec::new(), locals: Vec::new() };
        proof {
            assert(r.local_scopes() =~= Seq::<Seq<(Ident, AstLocalDeclId)>>::empty());
        }
        r
    }
}

/// A global may be used before it is declared: the reference and the later
/// declaration get the same ID. Declaring it a second time is an error.
pub proof fn lemma_forward_reference(entries: Seq<(Ident, GlobalDeclInfo)>, name: Ident, id: AstGlobalDeclId)
    ensures
        ({
            let after_ref = entries.push((name, GlobalDeclInfo { id, state: GlobalDeclState::Unresolved }));
            let after_decl = after_ref.push((name, GlobalDeclInfo { id, state: GlobalDeclState::Resolved }));
            &&& find_name(after_ref, name@) == Some(GlobalDeclInfo { id, state: GlobalDeclState::Unresolved })
            &&& find_name(after_decl, name@) == Some(GlobalDeclInfo { id, state: GlobalDeclState::Resolved })
        }),
{
    let after_ref = entries.push((name, GlobalDeclInfo { id, state: GlobalDeclState::Unresolved }));
    assert(after_ref.last().0@ == name@);
    let after_decl = after_ref.push((name, GlobalDeclInfo { id, state: GlobalDeclState::Resolved }));
    assert(after_decl.last().0@ == name@);
}

/// A local declared in the innermost scope is what its name resolves to from
/// then on, whatever that name meant before in this or an outer scope.
pub proof fn lemma_declared_local_resolves(
    scopes: Seq<Seq<(Ident, AstLocalDeclId)>>,
    ident: Ident,
    id: AstLocalDeclId,
)
    requires
        scopes.len() > 0,
    ensures
        find_local(scopes.update(scopes.len() - 1, scopes.last().push((ident, id))), ident@) == Some(id),
{
    let after = scopes.update(scopes.len() - 1, scopes.last().push((ident, id)));
    assert(after.last() == scopes.last().push((ident, id)));
    assert(after.last().last().0@ == ident@);
}

/// Leaving a scope forgets every local declared in it: each name resolves as
/// it did before the scope was entered.
pub proof fn lemma_exit_scope_forgets(
    scopes: Seq<Seq<(Ident, AstLocalDeclId)>>,
    inner: Seq<(Ident, AstLocalDeclId)>,
    name: Seq<char>,
)
    ensures
        find_local(scopes.push(inner).drop_last(), name) == find_local(scopes, name),
{
    assert(scopes.push(inner).drop_last() =~= scopes);
}

/// Declaring a global name twice is refused. After `new_global_decl`
/// succeeded for a name, a second `new_global_decl` of that name fails with
/// the duplicate-identifier error of the name's first occurrence (the first
/// identifier with that name that was seen, in a reference or a declaration),
/// and changes neither the names nor the ID counters.
pub proof fn lemma_global_declared_twice_refused(
    m0: VarDeclMap,
    m1: VarDeclMap,
    m2: VarDeclMap,
    b0: IdBuilder,
    b1: IdBuilder,
    b2: IdBuilder,
    first: Ident,
    ident: Ident,
    r1: JangResult<GlobalDecl>,
    r2: JangResult<GlobalDecl>,
)
    requires
        m0.global_decl_outcome(m1, first, b0, b1, r1),
        r1 is Ok,
        m1.global_decl_outcome(m2, ident, b1, b2, r2),
        ident@ == first@,
    ensures
        m1.global(ident@) is Some,
        r2 is Err,
        is_duplicate_ident_error(r2->Err_0, first_name(m1.global_entries(), ident@)->Some_0),
        first_name(m1.global_entries(), ident@)->Some_0 == match first_name(m0.global_entries(), ident@) {
            Some(k) => k,
            None => first,
        },
        first_name(m1.global_entries(), ident@)->Some_0@ == ident@,
        m2.global_entries() == m1.global_entries(),
        m2.local_scopes() == m1.local_scopes(),
        b2 == b1,
{
    let entries = m1.global_entries();
    assert(entries.drop_last() =~= m0.global_entries());
    assert(entries.last().0@ == ident@);
    lemma_first_name_of_found(entries, ident@);
}

/// A name first met in a reference, and bound in no open scope, becomes a
/// placeholder global with the next global ID; a second reference to that
/// name gives the same global and allocates no ID.
pub proof fn lemma_placeholder_referenced_again(
    m0: VarDeclMap,
    m1: VarDeclMap,
    m2: VarDeclMap,
    b0: IdBuilder,
    b1: IdBuilder,
    b2: IdBuilder,
    seen: Ident,
    ident: Ident,
    r0: VarRef,
    r1: VarRef,
)
    requires
        m0.resolve(seen@) is None,
        m0.var_ref_outcome(m1, seen, b0, b1, r0),
        m1.var_ref_outcome(m2, ident, b1, b2, r1),
        ident@ == seen@,
    ensures
        r0 is Global,
        r0->Global_0.id.id_index() == b0.global_count(),
        b1.global_count() == b0.global_count() + 1,
        m1.resolve(ident@) is Some,
        r1 == VarRef::Global(GlobalDecl { id: r0->Global_0.id, name: ident }),
        b2 == b1,
        m2.global_entries() == m1.global_entries(),
{
    assert(m1.global_entries().last().0@ == ident@);
}

/// Declaring a placeholder global keeps its ID: after a first reference to a
/// name made it a placeholder, `new_global_decl` of that name succeeds with
/// the placeholder's ID and allocates none. (A second declaration is then
/// refused, by [`lemma_global_declared_twice_refused`].)
pub proof fn lemma_placeholder_declared(
    m0: VarDeclMap,
    m1: VarDeclMap,
    m2: VarDeclMap,
    b0: IdBuilder,
    b1: IdBuilder,
    b2: IdBuilder,
    seen: Ident,
    ident: Ident,
    r0: VarRef,
    r1: JangResult<GlobalDecl>,
)
    requires
        m0.resolve(seen@) is None,
        m0.var_ref_outcome(m1, seen, b0, b1, r0),
        m1.global_decl_outcome(m2, ident, b1, b2, r1),
        ident@ == seen@,
    ensures
        m1.global(ident@) is Some,
        r0 is Global,
        r1 == Ok::<GlobalDecl, JangError>(GlobalDecl { id: r0->Global_0.id, name: ident }),
        b2 == b1,
{
    assert(m1.global_entries().last().0@ == ident@);
}

/// A name bound in scope `k` and in no scope inside it resolves to that
/// binding.
proof fn lemma_innermost_binding(scopes: Seq<Seq<(Ident, AstLocalDeclId)>>, k: int, name: Seq<char>, id: AstLocalDeclId)
    requires
        0 <= k < scopes.len(),
        find_name(scopes[k], name) == Some(id),
        forall|j: int| k < j < scopes.len() ==> find_name(#[trigger] scopes[j], name) is None,
    ensures
        find_local(scopes, name) == Some(id),
    decreases scopes.len(),
{
    if k < scopes.len() - 1 {
        let inner = scopes.drop_last();
        assert(find_name(scopes[scopes.len() - 1], name) is None);
        assert forall|j: int| k < j < inner.len() implies find_name(#[trigger] inner[j], name) is None by {
            assert(inner[j] == scopes[j]);
        }
        assert(inner[k] == scopes[k]);
        lemma_innermost_binding(inner, k, name, id);
    }
}

/// Whether scope `depth` binds `name` to `id` and no scope inside it binds
/// `name`.
pub open spec fn bound_innermost(scopes: Seq<Seq<(Ident, AstLocalDeclId)>>, depth: int, name: Seq<char>, id: AstLocalDeclId) -> bool {
    &&& 0 <= depth < scopes.len()
    &&& find_name(scopes[depth], name) == Some(id)
    &&& forall|j: int| depth < j < scopes.len() ==> find_name(#[trigger] scopes[j], name) is None
}

/// One step that neither declares `name` nor closes scope `depth` keeps the
/// binding.
proof fn lemma_step_keeps_binding(
    scopes: Seq<Seq<(Ident, AstLocalDeclId)>>,
    depth: int,
    name: Seq<char>,
    id: AstLocalDeclId,
    step: ScopeStep,
)
    requires
        bound_innermost(scopes, depth, name, id),
        step_scopes(scopes, step).len() > depth,
        step matches ScopeStep::Declare(i, _) ==> i@ != name,
    ensures
        bound_innermost(step_scopes(scopes, step), depth, name, id),
{
    let after = step_scopes(scopes, step);
    match step {
        ScopeStep::Declare(i, x) => {
            let last = scopes.len() - 1;
            assert(scopes.last().push((i, x)).drop_last() =~= scopes.last());
            assert forall|j: int| depth < j < after.len() implies find_name(#[trigger] after[j], name) is None by {
                if j != last {
                    assert(after[j] == scopes[j]);
                }
            }
            if depth != last {
                assert(after[depth] == scopes[depth]);
            }
        },
        ScopeStep::Enter => {
            assert forall|j: int| depth < j < after.len() implies find_name(#[trigger] after[j], name) is None by {
                if j < scopes.len() {
                    assert(after[j] == scopes[j]);
                }
            }
            assert(after[depth] == scopes[depth]);
        },
        ScopeStep::Exit => {
            assert forall|j: int| depth < j < after.len() implies find_name(#[trigger] after[j], name) is None by {
                assert(after[j] == scopes[j]);
            }
            assert(after[depth] == scopes[depth]);
        },
        ScopeStep::Keep => {},
    }
}

/// A sequence of such steps keeps the binding.
proof fn lemma_steps_keep_binding(
    scopes: Seq<Seq<(Ident, AstLocalDeclId)>>,
    steps: Seq<ScopeStep>,
    depth: int,
    name: Seq<char>,
    id: AstLocalDeclId,
)
    requires
        bound_innermost(scopes, depth, name, id),
        forall|k: int| 0 <= k <= steps.len() ==> #[trigger] run_scope_steps(scopes, steps.take(k)).len() > depth,
        forall|k: int| 0 <= k < steps.len() ==> ((#[trigger] steps[k]) matches ScopeStep::Declare(i, _) ==> i@ != name),
    ensures
        bound_innermost(run_scope_steps(scopes, steps), depth, name, id),
    decreases steps.len(),
{
    if steps.len() > 0 {
        let rest = steps.drop_last();
        assert forall|k: int| 0 <= k <= rest.len() implies #[trigger] run_scope_steps(scopes, rest.take(k)).len() > depth by {
            assert(rest.take(k) =~= steps.take(k));
        }
        assert forall|k: int| 0 <= k < rest.len() implies ((#[trigger] rest[k]) matches ScopeStep::Declare(i, _) ==> i@ != name) by {
            assert(rest[k] == steps[k]);
        }
        lemma_steps_keep_binding(scopes, rest, depth, name, id);
        assert(steps.take(steps.len() as int) =~= steps);
        assert(run_scope_steps(scopes, steps.take(steps.len() as int)).len() > depth);
        assert(steps.last() == steps[steps.len() - 1]);
        lemma_step_keeps_binding(run_scope_steps(scopes, rest), depth, name, id, steps.last());
    }
}

/// A local declared by `new_local_decl` gets the next local ID and is what
/// its name refers to until its scope is closed or the name is declared
/// again. The calls in between are given by their effect on the scopes, as
/// their contracts state it: `var_ref` and `new_global_decl` keep them,
/// `new_local_decl` declares in the innermost scope, `enter_block_scope` and
/// `exit_block_scope` open and close one. A later `var_ref` of the name then
/// gives the local.
pub proof fn lemma_local_found_until_scope_left(
    m0: VarDeclMap,
    m1: VarDeclMap,
    b0: IdBuilder,
    b1: IdBuilder,
    ident: Ident,
    d: LocalDecl,
    steps: Seq<ScopeStep>,
    later: VarDeclMap,
    after: VarDeclMap,
    b2: IdBuilder,
    b3: IdBuilder,
    use_ident: Ident,
    r: VarRef,
)
    requires
        m0.local_scopes().len() > 0,
        m0.local_decl_outcome(m1, ident, b0, b1, d),
        forall|k: int| 0 <= k <= steps.len() ==> #[trigger] run_scope_steps(m1.local_scopes(), steps.take(k)).len() >= m0.local_scopes().len(),
        forall|k: int| 0 <= k < steps.len() ==> ((#[trigger] steps[k]) matches ScopeStep::Declare(i, _) ==> i@ != ident@),
        later.local_scopes() == run_scope_steps(m1.local_scopes(), steps),
        later.var_ref_outcome(after, use_ident, b2, b3, r),
        use_ident@ == ident@,
    ensures
        d.id.id_index() == b0.local_count(),
        b1.local_count() == b0.local_count() + 1,
        find_local(later.local_scopes(), ident@) == Some(d.id),
        later.resolve(ident@) == Some(AstDeclId::Local(d.id)),
        r == VarRef::Local(LocalDecl { id: d.id, name: use_ident }),
        b3 == b2,
{
    let s0 = m0.local_scopes();
    let s1 = m1.local_scopes();
    let depth = s0.len() - 1;
    assert(s1[depth] == s0.last().push((ident, d.id)));
    assert(s1[depth].last().0@ == ident@);
    assert forall|k: int| 0 <= k <= steps.len() implies #[trigger] run_scope_steps(s1, steps.take(k)).len() > depth by {
    }
    lemma_steps_keep_binding(s1, steps, depth, ident@, d.id);
    lemma_innermost_binding(later.local_scopes(), depth, ident@, d.id);
}

/// The scopes inside a block leave the outer ones alone, step by step.
proof fn lemma_steps_keep_outer(
    outer: Seq<Seq<(Ident, AstLocalDeclId)>>,
    scopes: Seq<Seq<(Ident, AstLocalDeclId)>>,
    steps: Seq<ScopeStep>,
)
    requires
        scopes.len() > outer.len(),
        scopes.subrange(0, outer.len() as int) == outer,
        forall|k: int| 0 <= k <= steps.len() ==> #[trigger] run_scope_steps(scopes, steps.take(k)).len() > outer.len(),
    ensures
        run_scope_steps(scopes, steps).subrange(0, outer.len() as int) == outer,
    decreases steps.len(),
{
    if steps.len() > 0 {
        let rest = steps.drop_last();
        assert forall|k: int| 0 <= k <= rest.len() implies #[trigger] run_scope_steps(scopes, rest.take(k)).len() > outer.len() by {
            assert(rest.take(k) =~= steps.take(k));
        }
        lemma_steps_keep_outer(outer, scopes, rest);
        assert(rest.take(rest.len() as int) =~= rest);
        assert(steps.take(steps.len() as int) =~= steps);
        let before = run_scope_steps(scopes, rest);
        assert(run_scope_steps(scopes, rest.take(rest.len() as int)).len() > outer.len());
        let after = run_scope_steps(scopes, steps);
        assert(after.len() > outer.len());
        assert(after.subrange(0, outer.len() as int) =~= before.subrange(0, outer.len() as int));
    }
}

/// Leaving a block restores the scopes from before it was entered. After
/// `enter_block_scope`, any calls that stay inside the block (declaring
/// locals in it, entering and leaving scopes inside it, resolving and
/// declaring names) and end with the block innermost again, the closing
/// `exit_block_scope` gives back exactly the scopes from before the block:
/// the locals declared in it are no longer found.
pub proof fn lemma_block_scope_restored(
    m0: VarDeclMap,
    m1: VarDeclMap,
    steps: Seq<ScopeStep>,
    name: Seq<char>,
)
    requires
        m1.local_scopes() == step_scopes(m0.local_scopes(), ScopeStep::Enter),
        forall|k: int| 0 <= k <= steps.len() ==> #[trigger] run_scope_steps(m1.local_scopes(), steps.take(k)).len() > m0.local_scopes().len(),
        run_scope_steps(m1.local_scopes(), steps).len() == m0.local_scopes().len() + 1,
    ensures
        step_scopes(run_scope_steps(m1.local_scopes(), steps), ScopeStep::Exit) == m0.local_scopes(),
        find_local(step_scopes(run_scope_steps(m1.local_scopes(), steps), ScopeStep::Exit), name)
            == find_local(m0.local_scopes(), name),
{
    let outer = m0.local_scopes();
    assert(m1.local_scopes().subrange(0, outer.len() as int) =~= outer);
    lemma_steps_keep_outer(outer, m1.local_scopes(), steps);
    let last = run_scope_steps(m1.local_scopes(), steps);
    assert(last.drop_last() =~= last.subrange(0, outer.len() as int));
}

} // verus!
