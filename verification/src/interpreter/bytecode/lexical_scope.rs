use vstd::prelude::*;

use crate::{
    interpreter::{
        bytecode::local_table::LocalId,
        error::{reports, Failure, InterpreterError, InterpreterResult},
    },
    parser::ast::{bind_statement::Mutability, id::def::AstLocalDeclId},
};

verus! {

/// The frame slot and mutability of a bound local.
#[derive(Debug, Clone, Copy, PartialEq, Eq, Structural)]
pub struct IdentInfo {
    pub local_id: LocalId,
    pub mutability: Mutability,
}

impl IdentInfo {
    pub fn local_id(&self) -> (r: LocalId)
        ensures
            r == self.local_id,
    {
        self.local_id
    }

    pub fn mutability(&self) -> (r: &Mutability)
        ensures
            *r == self.mutability,
    {
        &self.mutability
    }
}

/// One block's worth of bindings, with the next free frame slot.
pub struct ScopeFrame {
    pub next_local_id: LocalId,
    pub locals: Vec<(AstLocalDeclId, IdentInfo)>,
}

/// The abstract contents of a scope frame.
pub ghost struct ScopeFrameModel {
    pub next_local_id: LocalId,
    pub locals: Seq<(AstLocalDeclId, IdentInfo)>,
}

/// The abstract contents of a lexical scope: the frames of the enclosing
/// blocks, outermost first, and the frame of the innermost block.
pub ghost struct ScopeModel {
    pub outer: Seq<ScopeFrameModel>,
    pub current: ScopeFrameModel,
}

impl View for ScopeFrame {
    type V = ScopeFrameModel;

    open spec fn view(&self) -> ScopeFrameModel {
        ScopeFrameModel { next_local_id: self.next_local_id, locals: self.locals@ }
    }
}

/// The binding of a local in one frame: the latest binding of it counts.
pub open spec fn frame_lookup(locals: Seq<(AstLocalDeclId, IdentInfo)>, local: AstLocalDeclId) -> Option<IdentInfo>
    decreases locals.len(),
{
    if locals.len() == 0 {
        None
    } else if locals.last().0 == local {
        Some(locals.last().1)
    } else {
        frame_lookup(locals.drop_last(), local)
    }
}

/// The binding of a local in a stack of frames: the innermost frame that
/// binds it decides.
pub open spec fn frames_lookup(frames: Seq<ScopeFrameModel>, local: AstLocalDeclId) -> Option<IdentInfo>
    decreases frames.len(),
{
    if frames.len() == 0 {
        None
    } else {
        match frame_lookup(frames.last().locals, local) {
            Some(info) => Some(info),
            None => frames_lookup(frames.drop_last(), local),
        }
    }
}

impl ScopeModel {
    /// The binding of a local visible in this scope.
    pub open spec fn lookup(self, local: AstLocalDeclId) -> Option<IdentInfo> {
        frames_lookup(self.outer.push(self.current), local)
    }

    /// The scope of a top-level function body before anything is bound.
    pub open spec fn initial() -> ScopeModel {
        ScopeModel { outer: Seq::empty(), current: ScopeFrameModel { next_local_id: LocalId::spec_new(0), locals: Seq::empty() } }
    }

    /// The scope after binding `local` to the next free slot.
    pub open spec fn bound(self, local: AstLocalDeclId, mutability: Mutability) -> ScopeModel {
        ScopeModel {
            outer: self.outer,
            current: ScopeFrameModel {
                next_local_id: LocalId::spec_new((self.current.next_local_id.index() + 1) as u32),
                locals: self.current.locals.push(
                    (local, IdentInfo { local_id: self.current.next_local_id, mutability }),
                ),
            },
        }
    }

    /// The scope of a block nested in this one: nothing bound yet, and slots
    /// continue after the ones in use.
    pub open spec fn entered(self) -> ScopeModel {
        ScopeModel {
            outer: self.outer.push(self.current),
            current: ScopeFrameModel { next_local_id: self.current.next_local_id, locals: Seq::empty() },
        }
    }

    /// The enclosing scope, if this is not the top-level scope.
    pub open spec fn exited(self) -> Option<ScopeModel> {
        if self.outer.len() == 0 {
            None
        } else {
            Some(ScopeModel { outer: self.outer.drop_last(), current: self.outer.last() })
        }
    }
}

/// The locals in scope while a function body is compiled, with the frame
/// slot each is stored in.
pub struct JitCompilerLexicalScope {
    outer: Vec<ScopeFrame>,
    current: ScopeFrame,
}

impl View for JitCompilerLexicalScope {
    type V = ScopeModel;

    closed spec fn view(&self) -> ScopeModel {
        ScopeModel { outer: self.outer@.map_values(|f: ScopeFrame| f@), current: self.current@ }
    }
}

fn frame_get(locals: &Vec<(AstLocalDeclId, IdentInfo)>, local: AstLocalDeclId) -> (r: Option<IdentInfo>)
    ensures
        r == frame_lookup(locals@, local),
{
    let mut i = locals.len();
    proof {
        assert(locals@.subrange(0, i as int) =~= locals@);
    }
    while i > 0
        invariant
            i <= locals@.len(),
            frame_lookup(locals@, local) == frame_lookup(locals@.subrange(0, i as int), local),
        decreases i,
    {
        let ghost prefix = locals@.subrange(0, i as int);
        if locals[i - 1].0 == local {
            return Some(locals[i - 1].1);
        }
        i = i - 1;
        proof {
            assert(prefix.drop_last() =~= locals@.subrange(0, i as int));
        }
    }
    None
}

impl JitCompilerLexicalScope {

    /// The frame slot the next binding will get.
    pub fn next_local_id(&self) -> (r: LocalId)
        ensures
            r == self@.current.next_local_id,
    {
        self.current.next_local_id
    }

    /// The binding of a local, looked up from the innermost block outwards.
    pub fn get_binding(&self, local: AstLocalDeclId) -> (r: Option<IdentInfo>)
        ensures
            r == self@.lookup(local),
    {
        let ghost frames = self@.outer.push(self@.current);
        if let Some(info) = frame_get(&self.current.locals, local) {
            proof {
                assert(frames.last() == self@.current);
            }
            return Some(info);
        }
        proof {
            assert(frames.drop_last() =~= self@.outer);
        }
        let mut i = self.outer.len();
        proof {
            assert(self@.outer.subrange(0, i as int) =~= self@.outer);
        }
        while i > 0
            invariant
                i <= self.outer@.len(),
                self@.outer.len() == self.outer@.len(),
                self@.lookup(local) == frames_lookup(self@.outer.subrange(0, i as int), local),
            decreases i,
        {
            let ghost prefix = self@.outer.subrange(0, i as int);
            if let Some(info) = frame_get(&self.outer[i - 1].locals, local) {
                return Some(info);
            }
            i = i - 1;
            proof {
                assert(prefix.drop_last() =~= self@.outer.subrange(0, i as int));
            }
        }
        None
    }

    /// Binds a local of the innermost block to the next free frame slot and
    /// returns that slot.
    pub fn bind(&mut self, local: AstLocalDeclId, mutability: Mutability) -> (r: LocalId)
        requires
            old(self)@.current.next_local_id.index() < u32::MAX,
        ensures
            r == old(self)@.current.next_local_id,
            final(self)@ == old(self)@.bound(local, mutability),
    {
        let local_id = self.current.next_local_id;
        self.current.next_local_id = local_id.next();
        self.current.locals.push((local, IdentInfo { local_id, mutability }));
        proof {
            assert(self@.current.locals =~= old(self)@.bound(local, mutability).current.locals);
            assert(self@.outer =~= old(self)@.outer);
        }
        local_id
    }

    /// The scope of a block nested in this one.
    pub fn enter_block(self) -> (r: Self)
        ensures
            r@ == self@.entered(),
    {
        let next_local_id = self.current.next_local_id;
        let mut outer = self.outer;
        outer.push(self.current);
        let r = JitCompilerLexicalScope { outer, current: ScopeFrame { next_local_id, locals: Vec::new() } };
        proof {
            assert(r@.outer =~= self@.entered().outer);
            assert(r@.current.locals =~= Seq::<(AstLocalDeclId, IdentInfo)>::empty());
        }
        r
    }

    /// The enclosing scope. Fails at the top-level scope.
    pub fn exit_block(self) -> (r: InterpreterResult<Self>)
        ensures
            match self@.exited() {
                Some(s) => r is Ok && r->Ok_0@ == s,
                None => r is Err && reports(r->Err_0, Failure::JitCompile("tried to exit from top-level scope"@)),
            },
    {
        let mut outer = self.outer;
        match outer.pop() {
            Some(current) => {
                let r = JitCompilerLexicalScope { outer, current };
                proof {
                    assert(r@.outer =~= self@.outer.drop_last());
                }
                Ok(r)
            },
            None => Err(InterpreterError::jit_err("tried to exit from top-level scope")),
        }
    }
}

impl Default for JitCompilerLexicalScope {
    /// The scope of a function body before anything is bound.
    fn default() -> (r: Self)
        ensures
            r@ == ScopeModel::initial(),
    {
        let r = JitCompilerLexicalScope {
            outer: Vec::new(),
            current: ScopeFrame { next_local_id: LocalId::first(), locals: Vec::new() },
        };
        proof {
            assert(r@.outer =~= Seq::<ScopeFrameModel>::empty());
            assert(r@.current.locals =~= Seq::<(AstLocalDeclId, IdentInfo)>::empty());
        }
        r
    }
}

/// A local bound in a scope is found with the slot and mutability it was
/// bound with, and it shadows any binding of the same local further out.
pub proof fn lemma_get_after_bind(scope: ScopeModel, local: AstLocalDeclId, mutability: Mutability)
    ensures
        scope.bound(local, mutability).lookup(local) == Some(
            IdentInfo { local_id: scope.current.next_local_id, mutability },
        ),
{
    let s = scope.bound(local, mutability);
    let frames = s.outer.push(s.current);
    assert(frames.last() == s.current);
    assert(s.current.locals.last().0 == local);
}

/// Leaving a block undoes entering it, whatever was bound inside: the
/// bindings of the block are gone and the slots it used are free again.
pub proof fn lemma_exit_undoes_enter(scope: ScopeModel, inner: ScopeModel)
    requires
        inner.outer == scope.entered().outer,
    ensures
        inner.exited() == Some(scope),
{
    assert(inner.outer.drop_last() =~= scope.outer);
}

/// A block nested in a scope sees every binding of that scope that it does
/// not bind itself.
pub proof fn lemma_entered_sees_outer(scope: ScopeModel, local: AstLocalDeclId)
    ensures
        scope.entered().lookup(local) == scope.lookup(local),
{
    let e = scope.entered();
    let frames = e.outer.push(e.current);
    assert(frames.drop_last() =~= scope.outer.push(scope.current));
}

} // verus!
