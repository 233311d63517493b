use vstd::prelude::*;

use crate::{
    interpreter::{
        bytecode::{
            instruction::{
                BlockModel, ConditionalJumpTargets, JitCallInstruction, JitCompiledFunction,
                JitInstruction, JitInstructionBlock, JitTerminalInstruction,
            },
            instruction_block_list::{BlockId, BlockList, BlockListBuilder},
            lexical_scope::{IdentInfo, JitCompilerLexicalScope, ScopeModel},
            local_table::LocalId,
            loop_context::LoopContext,
        },
        error::{reports, Failure, InterpreterError, InterpreterResult},
    },
    parser::{
        ast::{
            binary_expression::BinaryExpression,
            bind_statement::{BindStatement, Mutability},
            block::Block,
            call_expression::CallExpression,
            expression::{Expression, ExpressionVariant},
            function_decl::FunctionDecl,
            id::def::{AstExpressionId, AstLocalDeclId},
            if_statement::{ElseClause, IfStatement},
            literal_expression::LiteralExpression,
            loop_statement::LoopStatement,
            rebind_statement::RebindStatement,
            source_text::expr_chunks,
            ret_statement::RetStatement,
            statement::Statement,
            unary_experssion::UnaryExpression,
            var::{var_decl::{GlobalDecl, LocalDecl}, var_ref::VarRef},
        },
        token::{ident::Ident, literal::Literal},
    },
};

verus! {

// ---------------------------------------------------------------------------
// Compilation, stated over the abstract state of a function being
// compiled.
// ---------------------------------------------------------------------------

/// The state of compiling one function: the blocks allocated so far (each
/// filled in once terminated), the locals in scope, where `break` goes, and
/// the block that instructions are currently appended to, if any.
pub ghost struct CompileState {
    pub entrypoint: BlockId,
    pub blocks: Seq<Option<BlockModel>>,
    pub fn_name: Ident,
    pub scope: ScopeModel,
    pub break_target: Option<BlockId>,
    pub open_block: Option<(BlockId, Seq<JitInstruction>)>,
}

impl CompileState {
    /// The state after appending instructions to the open block.
    pub open spec fn emit_all(self, code: Seq<JitInstruction>) -> CompileState {
        CompileState {
            open_block: Some((self.open_block->Some_0.0, self.open_block->Some_0.1 + code)),
            ..self
        }
    }

    pub open spec fn emit(self, instr: JitInstruction) -> CompileState {
        self.emit_all(seq![instr])
    }

    /// The state after allocating one more block, and its ID.
    pub open spec fn allocate(self) -> (CompileState, BlockId) {
        (CompileState { blocks: self.blocks.push(None), ..self }, BlockId(self.blocks.len() as usize))
    }

    /// The state after closing the open block with a terminator. Fails if the
    /// block's ID was not allocated or its block was already filled in.
    pub open spec fn terminate(self, terminator: JitTerminalInstruction) -> Result<CompileState, Failure> {
        let id = self.open_block->Some_0.0;
        let instructions = self.open_block->Some_0.1;
        if id.0 < self.blocks.len() && self.blocks[id.0 as int] is None {
            Ok(CompileState {
                blocks: self.blocks.update(id.0 as int, Some(BlockModel { instructions, terminator })),
                open_block: None,
                ..self
            })
        } else {
            Err(Failure::JitCompile("block set twice or never allocated"@))
        }
    }

    /// The state after opening an empty block with the given ID.
    pub open spec fn start_block(self, id: BlockId) -> CompileState {
        CompileState { open_block: Some((id, Seq::empty())), ..self }
    }

    /// Closes the open block, if there is one, with a jump to `id`.
    pub open spec fn fallthrough(self, id: BlockId) -> Result<CompileState, Failure> {
        if self.open_block is Some {
            self.terminate(JitTerminalInstruction::Jump(id))
        } else {
            Ok(self)
        }
    }

    pub open spec fn with_scope(self, scope: ScopeModel) -> CompileState {
        CompileState { scope, ..self }
    }

    /// Binds a local to the next free slot and stores the top of the stack
    /// in it. Fails when the slots of a frame are exhausted.
    pub open spec fn store_new_local(self, local: AstLocalDeclId, mutability: Mutability) -> Result<CompileState, Failure> {
        if self.scope.current.next_local_id.index() < u32::MAX {
            let slot = self.scope.current.next_local_id;
            Ok(self.with_scope(self.scope.bound(local, mutability)).emit(JitInstruction::StoreLocal(slot)))
        } else {
            Err(Failure::JitCompile("too many locals in one function"@))
        }
    }
}

/// The text of the first sub-expression, in the order code is generated for
/// them, that cannot be compiled yet (member access), if any.
pub open spec fn expr_fault(e: Expression) -> Option<Seq<char>>
    decreases e, 0nat,
{
    match e.variant {
        ExpressionVariant::Literal(_) => None,
        ExpressionVariant::VarRef(_) => None,
        ExpressionVariant::BinaryExpression(b) => match expr_fault(*b.lhs) {
            Some(t) => Some(t),
            None => expr_fault(*b.rhs),
        },
        ExpressionVariant::UnaryExpression(u) => expr_fault(*u.expr),
        ExpressionVariant::CallExpression(c) => call_fault(c),
        ExpressionVariant::DotExpression(_) => Some(expr_chunks(e).flatten()),
    }
}

/// The arguments are compiled before the callee.
pub open spec fn call_fault(c: CallExpression) -> Option<Seq<char>>
    decreases c, c.argument_list.expressions@.len() + 1,
{
    match args_fault(c, c.argument_list.expressions@.len()) {
        Some(t) => Some(t),
        None => expr_fault(*c.target),
    }
}

/// The first fault among the first `n` arguments of a call.
pub open spec fn args_fault(c: CallExpression, n: nat) -> Option<Seq<char>>
    decreases c, n,
{
    if n == 0 || n > c.argument_list.expressions@.len() {
        None
    } else {
        match args_fault(c, (n - 1) as nat) {
            Some(t) => Some(t),
            None => expr_fault(c.argument_list.expressions@[n - 1]),
        }
    }
}

/// The error of an expression that cannot be compiled yet.
pub open spec fn unsupported(text: Seq<char>) -> Failure {
    Failure::Unimplemented("evaluation of expression not yet implemented: "@ + text)
}

/// The instruction that loads a variable: its slot if the scope binds it,
/// else its value as a global.
pub open spec fn var_load(scope: ScopeModel, v: VarRef) -> JitInstruction {
    match v {
        VarRef::Local(d) => match scope.lookup(d.id) {
            Some(info) => JitInstruction::LoadLocal(info.local_id),
            None => JitInstruction::LoadGlobal(d.name),
        },
        VarRef::Global(d) => JitInstruction::LoadGlobal(d.name),
    }
}

/// The code of an expression: its operands' code in postfix order, then the
/// operation. The code leaves the value of the expression on the stack.
pub open spec fn expr_code(scope: ScopeModel, e: Expression) -> Seq<JitInstruction>
    decreases e, 0nat,
{
    match e.variant {
        ExpressionVariant::Literal(l) => seq![JitInstruction::LoadLiteral(l.literal)],
        ExpressionVariant::VarRef(v) => seq![var_load(scope, v)],
        ExpressionVariant::BinaryExpression(b) => expr_code(scope, *b.lhs) + expr_code(scope, *b.rhs) + seq![
            JitInstruction::BinaryOp(b.op),
        ],
        ExpressionVariant::UnaryExpression(u) => expr_code(scope, *u.expr) + seq![JitInstruction::UnaryOp(u.op)],
        ExpressionVariant::CallExpression(c) => call_code(scope, c),
        ExpressionVariant::DotExpression(_) => Seq::empty(),
    }
}

/// The code of a call: the arguments in order, then the callee, then the
/// call with the number of arguments.
pub open spec fn call_code(scope: ScopeModel, c: CallExpression) -> Seq<JitInstruction>
    decreases c, c.argument_list.expressions@.len() + 1,
{
    args_code(scope, c, c.argument_list.expressions@.len()) + expr_code(scope, *c.target) + seq![
        JitInstruction::Call(JitCallInstruction { arity: c.argument_list.expressions@.len() as u32 }),
    ]
}

/// The code of the first `n` arguments of a call, in order.
pub open spec fn args_code(scope: ScopeModel, c: CallExpression, n: nat) -> Seq<JitInstruction>
    decreases c, n,
{
    if n == 0 || n > c.argument_list.expressions@.len() {
        Seq::empty()
    } else {
        args_code(scope, c, (n - 1) as nat) + expr_code(scope, c.argument_list.expressions@[n - 1])
    }
}

/// Compiles an expression onto the open block.
pub open spec fn compile_expr_spec(st: CompileState, e: Expression) -> Result<CompileState, Failure> {
    match expr_fault(e) {
        None => Ok(st.emit_all(expr_code(st.scope, e))),
        Some(t) => Err(unsupported(t)),
    }
}

/// Compiles a call onto the open block.
pub open spec fn compile_call_spec(st: CompileState, c: CallExpression) -> Result<CompileState, Failure> {
    match call_fault(c) {
        None => Ok(st.emit_all(call_code(st.scope, c))),
        Some(t) => Err(unsupported(t)),
    }
}

/// Compiles the arguments of a call onto the open block.
pub open spec fn compile_args_spec(st: CompileState, c: CallExpression) -> Result<CompileState, Failure> {
    match args_fault(c, c.argument_list.expressions@.len()) {
        None => Ok(st.emit_all(args_code(st.scope, c, c.argument_list.expressions@.len()))),
        Some(t) => Err(unsupported(t)),
    }
}

/// Stores the top of the stack in a variable bound earlier with `mut`. Fails
/// for a global, a local not in scope, or a local bound with `let`.
pub open spec fn rebind_spec(st: CompileState, v: VarRef) -> Result<CompileState, Failure> {
    match v {
        VarRef::Local(d) => match st.scope.lookup(d.id) {
            Some(info) => if info.mutability == Mutability::Mutable {
                Ok(st.emit(JitInstruction::StoreLocal(info.local_id)))
            } else {
                Err(Failure::JitCompile("Cannot rebind immutable variable "@ + d.name@))
            },
            None => Err(Failure::JitCompile("Unknown variable "@ + d.name@)),
        },
        VarRef::Global(d) => Err(Failure::JitCompile("Unknown variable "@ + d.name@)),
    }
}

/// Whether `ret e` is a direct tail call of the function being compiled.
pub open spec fn is_self_tail_call(fn_name: Ident, e: Expression) -> bool {
    &&& e.variant is CallExpression
    &&& (*e.variant->CallExpression_0.target).variant is VarRef
    &&& (*e.variant->CallExpression_0.target).variant->VarRef_0.spec_name()@ == fn_name@
}

/// `ret e`: a direct tail call re-enters the function's entry block with the
/// new arguments on the stack; anything else returns the value of `e`.
pub open spec fn ret_spec(st: CompileState, r: RetStatement) -> Result<CompileState, Failure> {
    if is_self_tail_call(st.fn_name, r.expr) {
        match compile_args_spec(st, r.expr.variant->CallExpression_0) {
            Ok(s1) => s1.terminate(JitTerminalInstruction::Jump(st.entrypoint)),
            Err(e) => Err(e),
        }
    } else {
        match compile_expr_spec(st, r.expr) {
            Ok(s1) => s1.terminate(JitTerminalInstruction::Return),
            Err(e) => Err(e),
        }
    }
}

/// `break`: jumps to the block after the innermost loop. Fails outside of
/// a loop.
pub open spec fn break_spec(st: CompileState) -> Result<CompileState, Failure> {
    match st.break_target {
        Some(t) => st.terminate(JitTerminalInstruction::Jump(t)),
        None => Err(Failure::JitCompile("Cannot break outside of a loop"@)),
    }
}

/// Compiles a statement onto the open block.
pub open spec fn stmt_spec(st: CompileState, s: Statement) -> Result<CompileState, Failure>
    decreases s, 0nat,
{
    match s {
        Statement::Bind(b) => match compile_expr_spec(st, b.expr) {
            Ok(s1) => s1.store_new_local(b.var.id, b.mutability),
            Err(e) => Err(e),
        },
        Statement::Rebind(r) => match compile_expr_spec(st, r.expr) {
            Ok(s1) => rebind_spec(s1, r.var),
            Err(e) => Err(e),
        },
        Statement::Ret(r) => ret_spec(st, r),
        Statement::CallStatement(c) => compile_call_spec(st, c),
        Statement::IfStatement(i) => if_spec(st, i),
        Statement::LoopStatement(l) => loop_spec(st, l),
        Statement::Block(b) => block_spec(st, b),
        Statement::Break => break_spec(st),
    }
}

/// The error of leaving the top-level scope.
pub open spec fn top_level_exit() -> Failure {
    Failure::JitCompile("tried to exit from top-level scope"@)
}

/// Compiles a block in a nested scope. The result may be closed, when the
/// block ends in `ret` or `break`.
pub open spec fn block_spec(st: CompileState, b: Block) -> Result<CompileState, Failure>
    decreases b, b.statements@.len() + 1,
{
    match stmts_spec(st.with_scope(st.scope.entered()), b, b.statements@.len()) {
        Ok(s1) => match s1.scope.exited() {
            Some(scope) => Ok(s1.with_scope(scope)),
            None => Err(top_level_exit()),
        },
        Err(e) => Err(e),
    }
}

/// The error of a statement after the block was closed.
pub open spec fn unreachable_statement() -> Failure {
    Failure::JitCompile("jit compilation failed: unreachable statement"@)
}

/// Compiles the first `n` statements of a block. A statement after the
/// block was closed is unreachable and an error.
pub open spec fn stmts_spec(st: CompileState, b: Block, n: nat) -> Result<CompileState, Failure>
    decreases b, n,
{
    if n == 0 || n > b.statements@.len() {
        Ok(st)
    } else {
        match stmts_spec(st, b, (n - 1) as nat) {
            Ok(s1) => if s1.open_block is Some {
                stmt_spec(s1, b.statements@[n - 1])
            } else {
                Err(unreachable_statement())
            },
            Err(e) => Err(e),
        }
    }
}

/// `if`: the condition ends the open block with a conditional jump to the
/// body or to the else branch; both fall through to a join block, which is
/// left open.
pub open spec fn if_spec(st: CompileState, i: IfStatement) -> Result<CompileState, Failure>
    decreases i, 0nat,
{
    let (s1, if_id) = st.allocate();
    let (s2, else_id) = s1.allocate();
    let (s3, join_id) = s2.allocate();
    match compile_expr_spec(s3, *i.condition) {
        Ok(s4) => match s4.terminate(
            JitTerminalInstruction::ConditionalJump(ConditionalJumpTargets { true_target: if_id, false_target: else_id }),
        ) {
            Ok(s5) => match block_spec(s5.start_block(if_id), i.body) {
                Ok(s6) => match s6.fallthrough(join_id) {
                    Ok(s7) => match else_spec(s7.start_block(else_id), i.else_clause) {
                        Ok(s8) => match s8.fallthrough(join_id) {
                            Ok(s9) => Ok(s9.start_block(join_id)),
                            Err(e) => Err(e),
                        },
                        Err(e) => Err(e),
                    },
                    Err(e) => Err(e),
                },
                Err(e) => Err(e),
            },
            Err(e) => Err(e),
        },
        Err(e) => Err(e),
    }
}

/// The else branch of an `if`.
pub open spec fn else_spec(st: CompileState, e: ElseClause) -> Result<CompileState, Failure>
    decreases e, 0nat,
{
    match e {
        ElseClause::Empty => Ok(st),
        ElseClause::Else(b) => block_spec(st, b),
        ElseClause::ElseIf(i) => if_spec(st, *i),
    }
}

/// `loop`: the open block jumps to the loop block, whose body falls back to
/// its start; `break` in the body goes to a join block, which is left open.
pub open spec fn loop_spec(st: CompileState, l: LoopStatement) -> Result<CompileState, Failure>
    decreases l, 0nat,
{
    let (s1, loop_id) = st.allocate();
    let (s2, join_id) = s1.allocate();
    match s2.terminate(JitTerminalInstruction::Jump(loop_id)) {
        Ok(s3) => {
            let previous = s3.break_target;
            let s4 = CompileState { break_target: Some(join_id), ..s3 };
            match block_spec(s4.start_block(loop_id), l.body) {
                Ok(s5) => match s5.fallthrough(loop_id) {
                    Ok(s6) => Ok(CompileState { break_target: previous, ..s6 }.start_block(join_id)),
                    Err(e) => Err(e),
                },
                Err(e) => Err(e),
            }
        },
        Err(e) => Err(e),
    }
}

/// The state a function's compilation starts in: the entry block, with
/// ID 0, allocated and open; nothing bound; not in a loop.
pub open spec fn initial_state(f: FunctionDecl) -> CompileState {
    start_state(f.name.name)
}

/// The state at the start of compiling the function with the given name.
pub open spec fn start_state(fn_name: Ident) -> CompileState {
    CompileState {
        entrypoint: BlockId(0),
        blocks: seq![None],
        fn_name,
        scope: ScopeModel::initial(),
        break_target: None,
        open_block: Some((BlockId(0), Seq::empty())),
    }
}

/// An expression of the given kind; compiling it does not depend on its ID.
pub open spec fn expr_of(variant: ExpressionVariant) -> Expression {
    Expression { id: AstExpressionId(0), variant }
}

/// Stores the last `k` parameters, last parameter first: the arguments are
/// on the stack with the last one on top.
pub open spec fn params_spec(st: CompileState, f: FunctionDecl, k: nat) -> Result<CompileState, Failure>
    decreases k,
{
    let n = f.parameters.parameters@.len();
    if k == 0 || k > n {
        Ok(st)
    } else {
        match params_spec(st, f, (k - 1) as nat) {
            Ok(s1) => s1.store_new_local(f.parameters.parameters@[n - k].var.id, Mutability::Immutable),
            Err(e) => Err(e),
        }
    }
}

/// The state after compiling a function: the parameters are stored, the
/// body compiled, and a body that can end without `ret` returns unit.
pub open spec fn fn_body_spec(f: FunctionDecl) -> Result<CompileState, Failure> {
    match params_spec(initial_state(f), f, f.parameters.parameters@.len()) {
        Ok(s1) => match block_spec(s1, f.body) {
            Ok(s2) => if s2.open_block is Some {
                s2.emit(JitInstruction::LoadUnit).terminate(JitTerminalInstruction::Return)
            } else {
                Ok(s2)
            },
            Err(e) => Err(e),
        },
        Err(e) => Err(e),
    }
}

/// The compiled function: its entry block and its blocks, if compilation
/// succeeds and every allocated block was filled in.
pub open spec fn compile_function_spec(f: FunctionDecl) -> Result<(BlockId, Seq<BlockModel>), Failure> {
    match fn_body_spec(f) {
        Ok(s) => if forall|i: int| 0 <= i < s.blocks.len() ==> #[trigger] s.blocks[i] is Some {
            Ok((s.entrypoint, s.blocks.map_values(|o: Option<BlockModel>| o->Some_0)))
        } else {
            Err(Failure::JitCompile("block was never terminated"@))
        },
        Err(e) => Err(e),
    }
}

// ---------------------------------------------------------------------------
// Facts about compilation.
// ---------------------------------------------------------------------------

/// A fault among the first `m` arguments is the first fault among more.
proof fn lemma_args_fault_persists(c: CallExpression, m: nat, n: nat)
    requires
        m <= n,
        n <= c.argument_list.expressions@.len(),
        args_fault(c, m) is Some,
    ensures
        args_fault(c, n) == args_fault(c, m),
    decreases n,
{
    if m < n {
        lemma_args_fault_persists(c, m, (n - 1) as nat);
    }
}

proof fn lemma_stmts_failure_persists(st: CompileState, b: Block, m: nat, n: nat)
    requires
        m <= n <= b.statements@.len(),
        stmts_spec(st, b, m) is Err,
    ensures
        stmts_spec(st, b, n) == stmts_spec(st, b, m),
    decreases n,
{
    if m < n {
        lemma_stmts_failure_persists(st, b, m, (n - 1) as nat);
    }
}

proof fn lemma_params_failure_persists(st: CompileState, f: FunctionDecl, m: nat, n: nat)
    requires
        m <= n <= f.parameters.parameters@.len(),
        params_spec(st, f, m) is Err,
    ensures
        params_spec(st, f, n) == params_spec(st, f, m),
    decreases n,
{
    if m < n {
        lemma_params_failure_persists(st, f, m, (n - 1) as nat);
    }
}

/// Binding one local leaves what every other local is bound to.
proof fn lemma_bound_keeps_others(scope: ScopeModel, local: AstLocalDeclId, mutability: Mutability, other: AstLocalDeclId)
    requires
        other != local,
    ensures
        scope.bound(local, mutability).lookup(other) == scope.lookup(other),
{
    let s = scope.bound(local, mutability);
    let frames = s.outer.push(s.current);
    let before = scope.outer.push(scope.current);
    assert(s.current.locals.drop_last() =~= scope.current.locals);
    assert(frames.drop_last() =~= before.drop_last());
    assert(frames.last() == s.current);
    assert(before.last() == scope.current);
}

/// Storing the last `k` parameters succeeds while slots are left, uses `k`
/// slots, stays in the top-level scope with the entry block open, and binds
/// each stored parameter immutable.
proof fn lemma_params_bound_immutable(f: FunctionDecl, k: nat)
    requires
        k <= f.parameters.parameters@.len(),
        f.parameters.parameters@.len() < u32::MAX,
    ensures
        params_spec(initial_state(f), f, k) is Ok,
        params_spec(initial_state(f), f, k)->Ok_0.scope.current.next_local_id.index() == k,
        params_spec(initial_state(f), f, k)->Ok_0.scope.outer.len() == 0,
        params_spec(initial_state(f), f, k)->Ok_0.open_block is Some,
        params_spec(initial_state(f), f, k)->Ok_0.fn_name == f.name.name,
        params_spec(initial_state(f), f, k)->Ok_0.break_target is None,
        forall|j: int|
            f.parameters.parameters@.len() - k <= j < f.parameters.parameters@.len() ==> (#[trigger] params_spec(
                initial_state(f),
                f,
                k,
            )->Ok_0.scope.lookup(f.parameters.parameters@[j].var.id) matches Some(info)
                && info.mutability == Mutability::Immutable),
    decreases k,
{
    let n = f.parameters.parameters@.len();
    if k > 0 {
        lemma_params_bound_immutable(f, (k - 1) as nat);
        let s1 = params_spec(initial_state(f), f, (k - 1) as nat)->Ok_0;
        let local = f.parameters.parameters@[n - k].var.id;
        let s = params_spec(initial_state(f), f, k)->Ok_0;
        assert(s.scope == s1.scope.bound(local, Mutability::Immutable));
        crate::interpreter::bytecode::lexical_scope::lemma_get_after_bind(s1.scope, local, Mutability::Immutable);
        assert forall|j: int| n - k <= j < n implies (#[trigger] params_spec(initial_state(f), f, k)->Ok_0.scope.lookup(
            f.parameters.parameters@[j].var.id,
        ) matches Some(info) && info.mutability == Mutability::Immutable) by {
            let other = f.parameters.parameters@[j].var.id;
            if other != local {
                lemma_bound_keeps_others(s1.scope, local, Mutability::Immutable, other);
            }
        }
    }
}

/// A binding statement binds its variable with the binding's own
/// mutability (`let` immutable, `mut` mutable), in the next free slot; from
/// then on the variable may be assigned to exactly when it was bound `mut`.
pub proof fn lemma_binding_keeps_its_mutability(st: CompileState, b: BindStatement, later: CompileState, name: Ident)
    requires
        stmt_spec(st, Statement::Bind(b)) is Ok,
        later.scope == stmt_spec(st, Statement::Bind(b))->Ok_0.scope,
        later.open_block is Some,
    ensures
        stmt_spec(st, Statement::Bind(b))->Ok_0.scope.lookup(b.var.id) == Some(
            IdentInfo { local_id: st.scope.current.next_local_id, mutability: b.mutability },
        ),
        rebind_spec(later, VarRef::Local(LocalDecl { id: b.var.id, name })) is Ok <==> b.mutability
            == Mutability::Mutable,
        b.mutability == Mutability::Mutable ==> rebind_spec(later, VarRef::Local(LocalDecl { id: b.var.id, name }))
            == Ok::<CompileState, Failure>(later.emit(JitInstruction::StoreLocal(st.scope.current.next_local_id))),
{
    let s1 = compile_expr_spec(st, b.expr)->Ok_0;
    crate::interpreter::bytecode::lexical_scope::lemma_get_after_bind(s1.scope, b.var.id, b.mutability);
}

/// Parameters are bound immutable: once a function's parameters are
/// stored, each of them is bound, and not as mutable.
pub proof fn lemma_parameters_are_immutable(f: FunctionDecl, j: int)
    requires
        f.parameters.parameters@.len() < u32::MAX,
        0 <= j < f.parameters.parameters@.len(),
    ensures
        params_spec(initial_state(f), f, f.parameters.parameters@.len()) is Ok,
        params_spec(initial_state(f), f, f.parameters.parameters@.len())->Ok_0.scope.lookup(
            f.parameters.parameters@[j].var.id,
        ) matches Some(info) && info.mutability == Mutability::Immutable,
{
    lemma_params_bound_immutable(f, f.parameters.parameters@.len());
}

/// A function whose body begins by assigning to one of its parameters does
/// not compile: parameters are immutable, and the error names the
/// parameter.
pub proof fn lemma_rebinding_a_parameter_is_refused(f: FunctionDecl, j: int, r: RebindStatement, d: LocalDecl)
    requires
        f.parameters.parameters@.len() < u32::MAX,
        0 <= j < f.parameters.parameters@.len(),
        f.body.statements@.len() > 0,
        f.body.statements@[0] == Statement::Rebind(r),
        r.var == VarRef::Local(d),
        d.id == f.parameters.parameters@[j].var.id,
        expr_fault(r.expr) is None,
    ensures
        fn_body_spec(f) == Err::<CompileState, Failure>(Failure::JitCompile("Cannot rebind immutable variable "@ + d.name@)),
        compile_function_spec(f) == Err::<(BlockId, Seq<BlockModel>), Failure>(
            Failure::JitCompile("Cannot rebind immutable variable "@ + d.name@),
        ),
{
    let n = f.parameters.parameters@.len();
    lemma_params_bound_immutable(f, n);
    let s1 = params_spec(initial_state(f), f, n)->Ok_0;
    assert(s1.scope.lookup(f.parameters.parameters@[j].var.id) matches Some(info) && info.mutability
        == Mutability::Immutable);
    let st = s1.with_scope(s1.scope.entered());
    crate::interpreter::bytecode::lexical_scope::lemma_entered_sees_outer(s1.scope, d.id);
    let body = f.body;
    assert(stmts_spec(st, body, 0) == Ok::<CompileState, Failure>(st));
    let s2 = st.emit_all(expr_code(st.scope, r.expr));
    assert(compile_expr_spec(st, r.expr) == Ok::<CompileState, Failure>(s2));
    assert(s2.scope == st.scope);
    assert(rebind_spec(s2, r.var) == Err::<CompileState, Failure>(
        Failure::JitCompile("Cannot rebind immutable variable "@ + d.name@),
    ));
    assert(stmt_spec(st, body.statements@[0]) == rebind_spec(s2, r.var));
    assert(stmts_spec(st, body, 1) == stmt_spec(st, body.statements@[0]));
    lemma_stmts_failure_persists(st, body, 1, body.statements@.len());
}

// ---------------------------------------------------------------------------
// The compiler.
// ---------------------------------------------------------------------------

struct JitInstructionBlockBuilder {
    id: BlockId,
    instructions: Vec<JitInstruction>,
}

impl JitInstructionBlockBuilder {
    fn new(id: BlockId) -> (r: Self)
        ensures
            r.id == id,
            r.instructions@ == Seq::<JitInstruction>::empty(),
    {
        JitInstructionBlockBuilder { id, instructions: Vec::new() }
    }

    fn emit_instr(self, instr: JitInstruction) -> (r: Self)
        ensures
            r.id == self.id,
            r.instructions@ == self.instructions@.push(instr),
    {
        let mut b = self;
        b.instructions.push(instr);
        b
    }

    fn terminate_with_instr(self, terminal: JitTerminalInstruction) -> (r: TerminatedBlock)
        ensures
            r.id == self.id,
            r.block@ == (BlockModel { instructions: self.instructions@, terminator: terminal }),
    {
        TerminatedBlock { id: self.id, block: JitInstructionBlock::new(self.instructions, terminal) }
    }
}

struct TerminatedBlock {
    id: BlockId,
    block: JitInstructionBlock,
}

spec fn slots_view(slots: Seq<Option<JitInstructionBlock>>) -> Seq<Option<BlockModel>> {
    slots.map_values(|o: Option<JitInstructionBlock>| match o {
        Some(b) => Some(b@),
        None => None,
    })
}

struct JitFunctionBuilder {
    entrypoint: BlockId,
    blocks: BlockListBuilder<JitInstructionBlock>,
    fn_name: Ident,
}

impl JitFunctionBuilder {
    spec fn blocks_view(&self) -> Seq<Option<BlockModel>> {
        slots_view(self.blocks.slots())
    }

    fn new(fn_name: &GlobalDecl) -> (r: Self)
        ensures
            r.entrypoint == BlockId(0),
            r.blocks_view() == seq![None::<BlockModel>],
            r.fn_name == fn_name.name,
    {
        let mut blocks = BlockListBuilder::new();
        let entrypoint = blocks.allocate_uninitialized();
        let r = JitFunctionBuilder { entrypoint, blocks, fn_name: fn_name.name().clone() };
        proof {
            assert(r.blocks_view() =~= seq![None::<BlockModel>]);
        }
        r
    }

    fn allocate_block(&mut self) -> (r: BlockId)
        ensures
            r.0 == old(self).blocks_view().len(),
            final(self).blocks_view() == old(self).blocks_view().push(None),
            final(self).entrypoint == old(self).entrypoint,
            final(self).fn_name == old(self).fn_name,
    {
        let r = self.blocks.allocate_uninitialized();
        proof {
            assert(self.blocks_view() =~= old(self).blocks_view().push(None));
        }
        r
    }

    fn finish_block(self, block: TerminatedBlock) -> (r: InterpreterResult<Self>)
        ensures
            r is Ok <==> (block.id.0 < self.blocks_view().len() && self.blocks_view()[block.id.0 as int] is None),
            r is Err ==> reports(r->Err_0, Failure::JitCompile("block set twice or never allocated"@)),
            r is Ok ==> r->Ok_0.blocks_view() == self.blocks_view().update(block.id.0 as int, Some(block.block@))
                && r->Ok_0.entrypoint == self.entrypoint && r->Ok_0.fn_name == self.fn_name,
    {
        let mut b = self;
        match b.blocks.set(block.id, block.block) {
            Ok(()) => {
                proof {
                    assert(b.blocks_view() =~= self.blocks_view().update(block.id.0 as int, Some(block.block@)));
                }
                Ok(b)
            },
            Err(e) => Err(e),
        }
    }

    fn build(self) -> (r: InterpreterResult<BlockList<JitInstructionBlock>>)
        ensures
            match r {
                Ok(list) => {
                    &&& forall|i: int| 0 <= i < self.blocks_view().len() ==> #[trigger] self.blocks_view()[i] is Some
                    &&& list.spec_blocks().map_values(|b: JitInstructionBlock| b@)
                        == self.blocks_view().map_values(|o: Option<BlockModel>| o->Some_0)
                },
                Err(e) => reports(e, Failure::JitCompile("block was never terminated"@))
                    && exists|i: int| 0 <= i < self.blocks_view().len() && #[trigger] self.blocks_view()[i] is None,
            },
    {
        let ghost bv = self.blocks_view();
        match self.blocks.build() {
            Ok(list) => {
                proof {
                    assert forall|i: int| 0 <= i < bv.len() implies #[trigger] bv[i] is Some by {
                        assert(self.blocks.slots()[i] == Some(list.spec_blocks()[i]));
                    }
                    assert(list.spec_blocks().map_values(|b: JitInstructionBlock| b@)
                        =~= bv.map_values(|o: Option<BlockModel>| o->Some_0));
                }
                Ok(list)
            },
            Err(id) => {
                proof {
                    assert(bv[id.0 as int] is None);
                }
                Err(InterpreterError::jit_err("block was never terminated"))
            },
        }
    }
}

/// Function compilation state when there is an unterminated instruction block.
struct OpenCursor {
    fn_builder: JitFunctionBuilder,
    lexical_scope: JitCompilerLexicalScope,
    loop_context: LoopContext,
    block: JitInstructionBlockBuilder,
}

/// Function compilation state when all blocks have been terminated.
struct ClosedCursor {
    fn_builder: JitFunctionBuilder,
    lexical_scope: JitCompilerLexicalScope,
    loop_context: LoopContext,
}

enum Cursor {
    Open(OpenCursor),
    Closed(ClosedCursor),
}

impl View for OpenCursor {
    type V = CompileState;

    closed spec fn view(&self) -> CompileState {
        CompileState {
            entrypoint: self.fn_builder.entrypoint,
            blocks: self.fn_builder.blocks_view(),
            fn_name: self.fn_builder.fn_name,
            scope: self.lexical_scope@,
            break_target: self.loop_context.break_target,
            open_block: Some((self.block.id, self.block.instructions@)),
        }
    }
}

impl View for ClosedCursor {
    type V = CompileState;

    closed spec fn view(&self) -> CompileState {
        CompileState {
            entrypoint: self.fn_builder.entrypoint,
            blocks: self.fn_builder.blocks_view(),
            fn_name: self.fn_builder.fn_name,
            scope: self.lexical_scope@,
            break_target: self.loop_context.break_target,
            open_block: None,
        }
    }
}

impl View for Cursor {
    type V = CompileState;

    closed spec fn view(&self) -> CompileState {
        match self {
            Cursor::Open(c) => c@,
            Cursor::Closed(c) => c@,
        }
    }
}

impl OpenCursor {
    fn new(fn_name: &GlobalDecl) -> (r: Self)
        ensures
            r@ == start_state(fn_name.name),
    {
        let fn_builder = JitFunctionBuilder::new(fn_name);
        let entrypoint = fn_builder.entrypoint;
        OpenCursor {
            fn_builder,
            lexical_scope: JitCompilerLexicalScope::default(),
            loop_context: LoopContext::default(),
            block: JitInstructionBlockBuilder::new(entrypoint),
        }
    }

    fn enter_lexical_scope(self) -> (r: Self)
        ensures
            r@ == self@.with_scope(self@.scope.entered()),
    {
        OpenCursor {
            fn_builder: self.fn_builder,
            lexical_scope: self.lexical_scope.enter_block(),
            loop_context: self.loop_context,
            block: self.block,
        }
    }

    fn exit_lexical_scope(self) -> (r: InterpreterResult<Self>)
        ensures
            match self@.scope.exited() {
                Some(scope) => r is Ok && r->Ok_0@ == self@.with_scope(scope),
                None => r is Err && reports(r->Err_0, top_level_exit()),
            },
    {
        let lexical_scope = self.lexical_scope.exit_block()?;
        Ok(OpenCursor { fn_builder: self.fn_builder, lexical_scope, loop_context: self.loop_context, block: self.block })
    }

    fn allocate_block(&mut self) -> (r: BlockId)
        ensures
            (final(self)@, r) == old(self)@.allocate(),
    {
        self.fn_builder.allocate_block()
    }

    fn emit_instr(self, instr: JitInstruction) -> (r: Self)
        ensures
            r@ == self@.emit(instr),
    {
        let r = OpenCursor {
            fn_builder: self.fn_builder,
            lexical_scope: self.lexical_scope,
            loop_context: self.loop_context,
            block: self.block.emit_instr(instr),
        };
        proof {
            assert(r.block.instructions@ =~= self.block.instructions@ + seq![instr]);
        }
        r
    }

    fn return_unit(self) -> (r: InterpreterResult<ClosedCursor>)
        ensures
            match self@.emit(JitInstruction::LoadUnit).terminate(JitTerminalInstruction::Return) {
                Ok(st) => r is Ok && r->Ok_0@ == st,
                Err(f) => r is Err && reports(r->Err_0, f),
            },
    {
        self.emit_instr(JitInstruction::LoadUnit).terminate(JitTerminalInstruction::Return)
    }

    fn terminate(self, terminal: JitTerminalInstruction) -> (r: InterpreterResult<ClosedCursor>)
        ensures
            match self@.terminate(terminal) {
                Ok(st) => r is Ok && r->Ok_0@ == st,
                Err(f) => r is Err && reports(r->Err_0, f),
            },
    {
        let fn_builder = self.fn_builder.finish_block(self.block.terminate_with_instr(terminal))?;
        Ok(ClosedCursor { fn_builder, lexical_scope: self.lexical_scope, loop_context: self.loop_context })
    }

    /// Binds a local to the next free slot and stores the top of the stack
    /// in it.
    fn emit_store_new_local(self, local: AstLocalDeclId, mutability: Mutability) -> (r: InterpreterResult<Self>)
        ensures
            match self@.store_new_local(local, mutability) {
                Ok(st) => r is Ok && r->Ok_0@ == st,
                Err(f) => r is Err && reports(r->Err_0, f),
            },
    {
        if self.lexical_scope.next_local_id().as_u32() == u32::MAX {
            return Err(InterpreterError::jit_err("too many locals in one function"));
        }
        let mut c = self;
        let local_id = c.lexical_scope.bind(local, mutability);
        Ok(c.emit_instr(JitInstruction::StoreLocal(local_id)))
    }

    fn emit_local_store(self, var: &crate::parser::ast::var::var_decl::LocalDecl) -> (r: InterpreterResult<Self>)
        ensures
            match self@.store_new_local(var.id, Mutability::Immutable) {
                Ok(st) => r is Ok && r->Ok_0@ == st,
                Err(f) => r is Err && reports(r->Err_0, f),
            },
    {
        self.emit_store_new_local(var.id(), Mutability::Immutable)
    }

    fn emit_local_mutable_store(self, var: &crate::parser::ast::var::var_decl::LocalDecl) -> (r: InterpreterResult<Self>)
        ensures
            match self@.store_new_local(var.id, Mutability::Mutable) {
                Ok(st) => r is Ok && r->Ok_0@ == st,
                Err(f) => r is Err && reports(r->Err_0, f),
            },
    {
        self.emit_store_new_local(var.id(), Mutability::Mutable)
    }

    fn emit_local_rebind(self, ref_expr: &VarRef) -> (r: InterpreterResult<Self>)
        ensures
            match rebind_spec(self@, *ref_expr) {
                Ok(st) => r is Ok && r->Ok_0@ == st,
                Err(f) => r is Err && reports(r->Err_0, f),
            },
    {
        match ref_expr {
            VarRef::Local(decl) => match self.lexical_scope.get_binding(decl.id()) {
                Some(info) => {
                    if info.mutability != Mutability::Mutable {
                        let mut m = String::from_str("Cannot rebind immutable variable ");
                        m.append(decl.name().name());
                        return Err(InterpreterError::JitCompile(m));
                    }
                    Ok(self.emit_instr(JitInstruction::StoreLocal(info.local_id())))
                },
                None => {
                    let mut m = String::from_str("Unknown variable ");
                    m.append(decl.name().name());
                    Err(InterpreterError::JitCompile(m))
                },
            },
            VarRef::Global(decl) => {
                let mut m = String::from_str("Unknown variable ");
                m.append(decl.name().name());
                Err(InterpreterError::JitCompile(m))
            },
        }
    }

    fn emit_local_load(self, var: &VarRef) -> (r: Self)
        ensures
            r@ == self@.emit(var_load(self@.scope, *var)),
    {
        match var {
            VarRef::Local(decl) => match self.lexical_scope.get_binding(decl.id()) {
                Some(info) => self.emit_instr(JitInstruction::LoadLocal(info.local_id())),
                None => self.emit_instr(JitInstruction::LoadGlobal(decl.name().clone())),
            },
            VarRef::Global(decl) => self.emit_instr(JitInstruction::LoadGlobal(decl.name().clone())),
        }
    }

    fn emit_literal_load(self, literal: &Literal) -> (r: Self)
        ensures
            r@ == self@.emit(JitInstruction::LoadLiteral(*literal)),
    {
        self.emit_instr(JitInstruction::LoadLiteral(literal.clone()))
    }

    fn compile_var_ref_expression(self, expr: &VarRef) -> (r: InterpreterResult<Self>)
        ensures
            r is Ok && r->Ok_0@ == self@.emit(var_load(self@.scope, *expr)),
    {
        Ok(self.emit_local_load(expr))
    }

    fn compile_literal_expression(self, expr: &LiteralExpression) -> (r: InterpreterResult<Self>)
        ensures
            r is Ok && r->Ok_0@ == self@.emit(JitInstruction::LoadLiteral(expr.literal)),
    {
        Ok(self.emit_literal_load(expr.literal()))
    }

    fn compile_expr(self, expr: &Expression) -> (r: InterpreterResult<Self>)
        ensures
            match compile_expr_spec(self@, *expr) {
                Ok(st) => r is Ok && r->Ok_0@ == st,
                Err(f) => r is Err && reports(r->Err_0, f),
            },
        decreases *expr, 0nat,
    {
        let ghost st = self@;
        match expr.variant() {
            ExpressionVariant::Literal(e) => {
                let r = self.compile_literal_expression(e);
                proof {
                    assert(st.emit_all(expr_code(st.scope, *expr)) == st.emit(JitInstruction::LoadLiteral(e.literal)));
                }
                r
            },
            ExpressionVariant::VarRef(e) => self.compile_var_ref_expression(e),
            ExpressionVariant::BinaryExpression(e) => self.compile_binary_expression(e),
            ExpressionVariant::UnaryExpression(e) => self.compile_unary_expression(e),
            ExpressionVariant::CallExpression(e) => self.compile_call_expression(e),
            ExpressionVariant::DotExpression(_) => {
                let mut m = String::from_str("evaluation of expression not yet implemented: ");
                m.append(expr.to_source().as_str());
                Err(InterpreterError::Unimplemented(m))
            },
        }
    }

    fn compile_binary_expression(self, expr: &BinaryExpression) -> (r: InterpreterResult<Self>)
        ensures
            match compile_expr_spec(self@, expr_of(ExpressionVariant::BinaryExpression(*expr))) {
                Ok(st) => r is Ok && r->Ok_0@ == st,
                Err(f) => r is Err && reports(r->Err_0, f),
            },
        decreases *expr, 0nat,
    {
        let ghost st = self@;
        let ghost lc = expr_code(st.scope, *expr.lhs);
        let ghost rc = expr_code(st.scope, *expr.rhs);
        let c1 = self.compile_expr(expr.lhs())?;
        let c2 = c1.compile_expr(expr.rhs())?;
        let r = c2.emit_instr(JitInstruction::BinaryOp(expr.op()));
        proof {
            assert(st.open_block->Some_0.1 + lc + rc + seq![JitInstruction::BinaryOp(expr.op)]
                =~= st.open_block->Some_0.1 + (lc + rc + seq![JitInstruction::BinaryOp(expr.op)]));
        }
        Ok(r)
    }

    fn compile_unary_expression(self, expr: &UnaryExpression) -> (r: InterpreterResult<Self>)
        ensures
            match compile_expr_spec(self@, expr_of(ExpressionVariant::UnaryExpression(*expr))) {
                Ok(st) => r is Ok && r->Ok_0@ == st,
                Err(f) => r is Err && reports(r->Err_0, f),
            },
        decreases *expr, 0nat,
    {
        let ghost st = self@;
        let ghost ec = expr_code(st.scope, *expr.expr);
        let c1 = self.compile_expr(expr.expr())?;
        let r = c1.emit_instr(JitInstruction::UnaryOp(expr.op()));
        proof {
            assert(st.open_block->Some_0.1 + ec + seq![JitInstruction::UnaryOp(expr.op)]
                =~= st.open_block->Some_0.1 + (ec + seq![JitInstruction::UnaryOp(expr.op)]));
        }
        Ok(r)
    }

    fn compile_call_expression(self, call_expression: &CallExpression) -> (r: InterpreterResult<Self>)
        ensures
            match compile_call_spec(self@, *call_expression) {
                Ok(st) => r is Ok && r->Ok_0@ == st,
                Err(f) => r is Err && reports(r->Err_0, f),
            },
        decreases *call_expression, 1nat,
    {
        let ghost st = self@;
        let ghost n = call_expression.argument_list.expressions@.len();
        let ghost ac = args_code(st.scope, *call_expression, n);
        let ghost tc = expr_code(st.scope, *call_expression.target);
        let c1 = self.compile_call_arguments(call_expression)?;
        let c2 = c1.compile_expr(call_expression.target())?;
        let arity = call_expression.argument_list().len() as u32;
        let r = c2.emit_instr(JitInstruction::Call(JitCallInstruction::with_arity(arity)));
        proof {
            let call = JitInstruction::Call(JitCallInstruction { arity: n as u32 });
            assert(st.open_block->Some_0.1 + ac + tc + seq![call] =~= st.open_block->Some_0.1 + (ac + tc + seq![call]));
        }
        Ok(r)
    }

    fn compile_call_arguments(self, call_expression: &CallExpression) -> (r: InterpreterResult<Self>)
        ensures
            match compile_args_spec(self@, *call_expression) {
                Ok(st) => r is Ok && r->Ok_0@ == st,
                Err(f) => r is Err && reports(r->Err_0, f),
            },
        decreases *call_expression, 0nat,
    {
        let ghost st = self@;
        let args = call_expression.argument_list();
        let n = args.len();
        let mut cur = self;
        let mut i: usize = 0;
        proof {
            assert(st.open_block->Some_0.1 + Seq::<JitInstruction>::empty() =~= st.open_block->Some_0.1);
        }
        while i < n
            invariant
                i <= n,
                n == call_expression.argument_list.expressions@.len(),
                args@ == call_expression.argument_list.expressions@,
                args_fault(*call_expression, i as nat) is None,
                cur@ == st.emit_all(args_code(st.scope, *call_expression, i as nat)),
            decreases n - i,
        {
            let ghost before = cur@;
            let ghost prefix = args_code(st.scope, *call_expression, i as nat);
            let ghost code = expr_code(st.scope, args@[i as int]);
            match cur.compile_expr(&args[i]) {
                Ok(next) => {
                    cur = next;
                },
                Err(e) => {
                    proof {
                        lemma_args_fault_persists(*call_expression, (i + 1) as nat, n as nat);
                    }
                    return Err(e);
                },
            }
            proof {
                assert(st.open_block->Some_0.1 + prefix + code =~= st.open_block->Some_0.1 + (prefix + code));
            }
            i = i + 1;
        }
        Ok(cur)
    }
}

impl OpenCursor {
    fn compile_statement(self, statement: &Statement) -> (r: InterpreterResult<Cursor>)
        ensures
            match stmt_spec(self@, *statement) {
                Ok(st) => r is Ok && r->Ok_0@ == st,
                Err(f) => r is Err && reports(r->Err_0, f),
            },
        decreases *statement, 0nat,
    {
        match statement {
            Statement::Bind(s) => Ok(Cursor::Open(self.compile_bind_statement(s)?)),
            Statement::Rebind(s) => Ok(Cursor::Open(self.compile_rebind_statement(s)?)),
            Statement::Ret(s) => Ok(Cursor::Closed(self.compile_ret_statement(s)?)),
            Statement::CallStatement(c) => Ok(Cursor::Open(self.compile_call_expression(c)?)),
            Statement::IfStatement(s) => Ok(Cursor::Open(self.compile_if_statement(s)?)),
            Statement::LoopStatement(s) => Ok(Cursor::Open(self.compile_loop_statement(s)?)),
            Statement::Block(b) => self.compile_lexical_block(b),
            Statement::Break => Ok(Cursor::Closed(self.compile_break_statement()?)),
        }
    }

    fn compile_bind_statement(self, statement: &BindStatement) -> (r: InterpreterResult<Self>)
        ensures
            match compile_expr_spec(self@, statement.expr) {
                Ok(s1) => match s1.store_new_local(statement.var.id, statement.mutability) {
                    Ok(st) => r is Ok && r->Ok_0@ == st,
                    Err(f) => r is Err && reports(r->Err_0, f),
                },
                Err(f) => r is Err && reports(r->Err_0, f),
            },
    {
        let compiled_expr = self.compile_expr(statement.expr())?;
        match statement.mutability() {
            Mutability::Immutable => compiled_expr.emit_local_store(statement.var()),
            Mutability::Mutable => compiled_expr.emit_local_mutable_store(statement.var()),
        }
    }

    fn compile_rebind_statement(self, statement: &RebindStatement) -> (r: InterpreterResult<Self>)
        ensures
            match compile_expr_spec(self@, statement.expr) {
                Ok(s1) => match rebind_spec(s1, statement.var) {
                    Ok(st) => r is Ok && r->Ok_0@ == st,
                    Err(f) => r is Err && reports(r->Err_0, f),
                },
                Err(f) => r is Err && reports(r->Err_0, f),
            },
    {
        self.compile_expr(statement.expr())?.emit_local_rebind(statement.var())
    }

    fn compile_ret_statement(self, ret_statement: &RetStatement) -> (r: InterpreterResult<ClosedCursor>)
        ensures
            match ret_spec(self@, *ret_statement) {
                Ok(st) => r is Ok && r->Ok_0@ == st,
                Err(f) => r is Err && reports(r->Err_0, f),
            },
    {
        // Tail calls for direct recursion.
        if let ExpressionVariant::CallExpression(call) = ret_statement.expr().variant() {
            if let ExpressionVariant::VarRef(var_ref) = call.target().variant() {
                if var_ref.name().same_name(&self.fn_builder.fn_name) {
                    let entrypoint = self.fn_builder.entrypoint;
                    return self.compile_call_arguments(call)?.terminate(JitTerminalInstruction::Jump(entrypoint));
                }
            }
        }
        self.compile_expr(ret_statement.expr())?.terminate(JitTerminalInstruction::Return)
    }

    fn compile_break_statement(self) -> (r: InterpreterResult<ClosedCursor>)
        ensures
            match break_spec(self@) {
                Ok(st) => r is Ok && r->Ok_0@ == st,
                Err(f) => r is Err && reports(r->Err_0, f),
            },
    {
        match self.loop_context.break_target() {
            Some(break_target) => self.terminate(JitTerminalInstruction::Jump(break_target)),
            None => Err(InterpreterError::jit_err("Cannot break outside of a loop")),
        }
    }

    fn compile_lexical_block(self, block: &Block) -> (r: InterpreterResult<Cursor>)
        ensures
            match block_spec(self@, *block) {
                Ok(st) => r is Ok && r->Ok_0@ == st,
                Err(f) => r is Err && reports(r->Err_0, f),
            },
        decreases *block, block.statements@.len() + 1,
    {
        Cursor::Open(self.enter_lexical_scope()).compile_statements(block)?.exit_lexical_scope()
    }

    fn compile_if_statement(self, if_statement: &IfStatement) -> (r: InterpreterResult<Self>)
        ensures
            match if_spec(self@, *if_statement) {
                Ok(st) => r is Ok && r->Ok_0@ == st,
                Err(f) => r is Err && reports(r->Err_0, f),
            },
        decreases *if_statement, 0nat,
    {
        let mut c = self;
        let if_block_id = c.allocate_block();
        let else_block_id = c.allocate_block();
        let join_block_id = c.allocate_block();
        let c = c.compile_expr(if_statement.condition())?;
        let c = c.terminate(
            JitTerminalInstruction::ConditionalJump(ConditionalJumpTargets::new(if_block_id, else_block_id)),
        )?;
        let c = c.start_block(if_block_id).compile_lexical_block(if_statement.body())?;
        let c = c.finish_with_fallthrough_to(join_block_id)?;
        let c = c.start_block(else_block_id).compile_else_block(if_statement.else_clause())?;
        let c = c.finish_with_fallthrough_to(join_block_id)?;
        Ok(c.start_block(join_block_id))
    }

    fn compile_else_block(self, else_clause: &ElseClause) -> (r: InterpreterResult<Cursor>)
        ensures
            match else_spec(self@, *else_clause) {
                Ok(st) => r is Ok && r->Ok_0@ == st,
                Err(f) => r is Err && reports(r->Err_0, f),
            },
        decreases *else_clause, 0nat,
    {
        match else_clause {
            ElseClause::Empty => Ok(Cursor::Open(self)),
            ElseClause::Else(block) => self.compile_lexical_block(block),
            ElseClause::ElseIf(if_statement) => Ok(Cursor::Open(self.compile_if_statement(if_statement)?)),
        }
    }

    fn compile_loop_statement(self, loop_statement: &LoopStatement) -> (r: InterpreterResult<Self>)
        ensures
            match loop_spec(self@, *loop_statement) {
                Ok(st) => r is Ok && r->Ok_0@ == st,
                Err(f) => r is Err && reports(r->Err_0, f),
            },
        decreases *loop_statement, 0nat,
    {
        let mut c = self;
        let loop_block_id = c.allocate_block();
        let join_block_id = c.allocate_block();
        let c = c.terminate(JitTerminalInstruction::Jump(loop_block_id))?;
        let c = c.enter_loop_context(join_block_id, loop_block_id, loop_statement.body())?;
        Ok(c.start_block(join_block_id))
    }
}

impl ClosedCursor {
    fn start_block(self, block_id: BlockId) -> (r: OpenCursor)
        ensures
            r@ == self@.start_block(block_id),
    {
        OpenCursor {
            fn_builder: self.fn_builder,
            lexical_scope: self.lexical_scope,
            loop_context: self.loop_context,
            block: JitInstructionBlockBuilder::new(block_id),
        }
    }

    fn exit_lexical_scope(self) -> (r: InterpreterResult<Self>)
        ensures
            match self@.scope.exited() {
                Some(scope) => r is Ok && r->Ok_0@ == self@.with_scope(scope),
                None => r is Err && reports(r->Err_0, top_level_exit()),
            },
    {
        let lexical_scope = self.lexical_scope.exit_block()?;
        Ok(ClosedCursor { fn_builder: self.fn_builder, lexical_scope, loop_context: self.loop_context })
    }

    /// Compiles the body of a loop starting at `loop_block_id`, with `break`
    /// going to `join_block_id`; the break target of the enclosing code is
    /// restored afterwards.
    fn enter_loop_context(self, join_block_id: BlockId, loop_block_id: BlockId, body: &Block) -> (r: InterpreterResult<Self>)
        ensures
            match block_spec(CompileState { break_target: Some(join_block_id), ..self@ }.start_block(loop_block_id), *body) {
                Ok(s5) => match s5.fallthrough(loop_block_id) {
                    Ok(s6) => r is Ok && r->Ok_0@ == CompileState { break_target: self@.break_target, ..s6 },
                    Err(f) => r is Err && reports(r->Err_0, f),
                },
                Err(f) => r is Err && reports(r->Err_0, f),
            },
        decreases *body, body.statements@.len() + 2,
    {
        let mut c = self;
        let prev_loop_context = c.loop_context.exchange(join_block_id);
        let cursor = c.start_block(loop_block_id).compile_lexical_block(body)?;
        let mut cursor = cursor.finish_with_fallthrough_to(loop_block_id)?;
        cursor.loop_context = prev_loop_context;
        Ok(cursor)
    }
}

impl Cursor {
    fn finish_with_fallthrough_to(self, block_id: BlockId) -> (r: InterpreterResult<ClosedCursor>)
        ensures
            match self@.fallthrough(block_id) {
                Ok(st) => r is Ok && r->Ok_0@ == st,
                Err(f) => r is Err && reports(r->Err_0, f),
            },
    {
        match self {
            Cursor::Open(cursor) => cursor.terminate(JitTerminalInstruction::Jump(block_id)),
            Cursor::Closed(cursor) => Ok(cursor),
        }
    }

    fn compile_statement(self, statement: &Statement) -> (r: InterpreterResult<Cursor>)
        ensures
            self@.open_block is Some ==> match stmt_spec(self@, *statement) {
                Ok(st) => r is Ok && r->Ok_0@ == st,
                Err(f) => r is Err && reports(r->Err_0, f),
            },
            self@.open_block is None ==> r is Err && reports(r->Err_0, unreachable_statement()),
        decreases *statement, 1nat,
    {
        match self {
            Cursor::Open(cur) => cur.compile_statement(statement),
            Cursor::Closed(_) => Err(InterpreterError::jit_err("jit compilation failed: unreachable statement")),
        }
    }

    fn compile_statements(self, block: &Block) -> (r: InterpreterResult<Cursor>)
        ensures
            match stmts_spec(self@, *block, block.statements@.len()) {
                Ok(st) => r is Ok && r->Ok_0@ == st,
                Err(f) => r is Err && reports(r->Err_0, f),
            },
        decreases *block, block.statements@.len(),
    {
        let ghost start = self@;
        let statements = block.statements();
        let n = statements.len();
        let mut cur = self;
        let mut i: usize = 0;
        while i < n
            invariant
                i <= n,
                n == block.statements@.len(),
                statements@ == block.statements@,
                start == self@,
                stmts_spec(start, *block, i as nat) == Ok::<CompileState, Failure>(cur@),
            decreases n - i,
        {
            match cur.compile_statement(&statements[i]) {
                Ok(next) => {
                    cur = next;
                },
                Err(e) => {
                    proof {
                        assert(statements@[i as int] == block.statements@[(i + 1) - 1]);
                        assert(stmts_spec(start, *block, (i + 1) as nat) is Err);
                        lemma_stmts_failure_persists(start, *block, (i + 1) as nat, n as nat);
                    }
                    return Err(e);
                },
            }
            i = i + 1;
        }
        Ok(cur)
    }

    fn exit_lexical_scope(self) -> (r: InterpreterResult<Self>)
        ensures
            match self@.scope.exited() {
                Some(scope) => r is Ok && r->Ok_0@ == self@.with_scope(scope),
                None => r is Err && reports(r->Err_0, top_level_exit()),
            },
    {
        match self {
            Cursor::Open(cur) => Ok(Cursor::Open(cur.exit_lexical_scope()?)),
            Cursor::Closed(cur) => Ok(Cursor::Closed(cur.exit_lexical_scope()?)),
        }
    }

    fn compile_fn_decl(fn_decl: &FunctionDecl) -> (r: InterpreterResult<JitCompiledFunction>)
        ensures
            match compile_function_spec(*fn_decl) {
                Ok((entrypoint, blocks)) => r is Ok && r->Ok_0.entrypoint == entrypoint
                    && r->Ok_0.block_models() == blocks,
                Err(f) => r is Err && reports(r->Err_0, f),
            },
    {
        let ghost init = initial_state(*fn_decl);
        let parameters = fn_decl.parameters();
        let n = parameters.len();
        let mut cur = OpenCursor::new(fn_decl.name_decl());
        let mut k: usize = 0;
        while k < n
            invariant
                k <= n,
                n == fn_decl.parameters.parameters@.len(),
                parameters@ == fn_decl.parameters.parameters@,
                init == initial_state(*fn_decl),
                params_spec(init, *fn_decl, k as nat) == Ok::<CompileState, Failure>(cur@),
            decreases n - k,
        {
            match cur.emit_local_store(parameters[n - 1 - k].var()) {
                Ok(next) => {
                    cur = next;
                },
                Err(e) => {
                    proof {
                        assert(params_spec(init, *fn_decl, (k + 1) as nat) is Err);
                        lemma_params_failure_persists(init, *fn_decl, (k + 1) as nat, n as nat);
                    }
                    return Err(e);
                },
            }
            k = k + 1;
        }
        let cur = cur.compile_lexical_block(fn_decl.body())?;
        // Terminate by returning unit value if not already closed.
        let cur = match cur {
            Cursor::Open(cur) => cur.return_unit()?,
            Cursor::Closed(cur) => cur,
        };
        let entrypoint = cur.fn_builder.entrypoint;
        let blocks = cur.fn_builder.build()?;
        Ok(JitCompiledFunction::new(entrypoint, blocks))
    }
}

/// Compiles a function declaration to bytecode.
pub fn compile_to_bytecode(fn_decl: &FunctionDecl) -> (r: InterpreterResult<JitCompiledFunction>)
    ensures
        match compile_function_spec(*fn_decl) {
            Ok((entrypoint, blocks)) => r is Ok && r->Ok_0.entrypoint == entrypoint
                && r->Ok_0.block_models() == blocks,
            Err(f) => r is Err && reports(r->Err_0, f),
        },
{
    Cursor::compile_fn_decl(fn_decl)
}

} // verus!
