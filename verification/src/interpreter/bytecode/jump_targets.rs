use vstd::prelude::*;

use crate::{
    interpreter::bytecode::{
        compiler::{
            block_spec, break_spec, compile_args_spec, compile_call_spec, compile_expr_spec, compile_function_spec,
            else_spec, fn_body_spec, if_spec, initial_state, loop_spec, params_spec, rebind_spec, ret_spec,
            stmt_spec, stmts_spec, CompileState,
        },
        instruction::{JitInstruction, JitTerminalInstruction},
        machine::{initial_machine, machine_step, FnModel, FrameModel, MachineModel, StepOutcome},
    },
    interpreter::error::Failure,
    interpreter::value::Value,
    interpreter::interpreter::{compile_program, fn_model},
    parser::ast::{
        block::Block, function_decl::FunctionDecl, if_statement::{ElseClause, IfStatement},
        loop_statement::LoopStatement, statement::Statement,
    },
};

verus! {

/// Whether every block a terminator can go to is among the first `n`.
pub open spec fn targets_in(t: JitTerminalInstruction, n: nat) -> bool {
    match t {
        JitTerminalInstruction::Jump(b) => b.0 < n,
        JitTerminalInstruction::ConditionalJump(c) => c.true_target.0 < n && c.false_target.0 < n,
        JitTerminalInstruction::Return => true,
    }
}

/// Every block a compile state refers to is allocated: its entry, its open
/// block, where `break` goes, and every target of a finished block.
pub open spec fn state_wf(st: CompileState) -> bool {
    let n = st.blocks.len();
    &&& st.entrypoint.0 < n
    &&& (st.open_block matches Some((id, _)) ==> id.0 < n)
    &&& (st.break_target matches Some(t) ==> t.0 < n)
    &&& forall|i: int| 0 <= i < n && #[trigger] st.blocks[i] is Some ==> targets_in(st.blocks[i]->Some_0.terminator, n)
}

/// What a compile step keeps: well-formedness, the blocks allocated so far,
/// the entry block and where `break` goes.
pub open spec fn step_keeps(st: CompileState, r: Result<CompileState, Failure>) -> bool {
    r matches Ok(s) ==> {
        &&& state_wf(s)
        &&& s.blocks.len() >= st.blocks.len()
        &&& s.entrypoint == st.entrypoint
        &&& s.break_target == st.break_target
    }
}

proof fn lemma_emit_wf(st: CompileState, code: Seq<JitInstruction>)
    requires
        state_wf(st),
        st.open_block is Some,
    ensures
        state_wf(st.emit_all(code)),
        st.emit_all(code).blocks == st.blocks,
        st.emit_all(code).open_block is Some,
{
}

proof fn lemma_terminate_wf(st: CompileState, t: JitTerminalInstruction)
    requires
        state_wf(st),
        st.open_block is Some,
        targets_in(t, st.blocks.len()),
    ensures
        step_keeps(st, st.terminate(t)),
{
    if let Ok(s) = st.terminate(t) {
        let n = st.blocks.len();
        assert forall|i: int| 0 <= i < n && #[trigger] s.blocks[i] is Some implies targets_in(
            s.blocks[i]->Some_0.terminator,
            n,
        ) by {
            if i != st.open_block->Some_0.0.0 {
                assert(s.blocks[i] == st.blocks[i]);
            }
        }
    }
}

proof fn lemma_allocate_wf(st: CompileState)
    requires
        state_wf(st),
    ensures
        state_wf(st.allocate().0),
        st.allocate().0.blocks.len() == st.blocks.len() + 1,
        st.allocate().1.0 <= st.blocks.len(),
        st.allocate().0.entrypoint == st.entrypoint,
        st.allocate().0.break_target == st.break_target,
        st.allocate().0.open_block == st.open_block,
{
    let s = st.allocate().0;
    let n = st.blocks.len();
    assert forall|i: int| 0 <= i < n + 1 && #[trigger] s.blocks[i] is Some implies targets_in(
        s.blocks[i]->Some_0.terminator,
        n + 1,
    ) by {
        assert(s.blocks[i] == st.blocks[i]);
    }
}

proof fn lemma_fallthrough_wf(st: CompileState, id: crate::interpreter::bytecode::instruction_block_list::BlockId)
    requires
        state_wf(st),
        id.0 < st.blocks.len(),
    ensures
        step_keeps(st, st.fallthrough(id)),
{
    if st.open_block is Some {
        lemma_terminate_wf(st, JitTerminalInstruction::Jump(id));
    }
}

proof fn lemma_stmt_wf(st: CompileState, s: Statement)
    requires
        state_wf(st),
        st.open_block is Some,
    ensures
        step_keeps(st, stmt_spec(st, s)),
    decreases s, 0nat,
{
    match s {
        Statement::Bind(b) => {
            if let Ok(s1) = compile_expr_spec(st, b.expr) {
                lemma_emit_wf(st, crate::interpreter::bytecode::compiler::expr_code(st.scope, b.expr));
                let slot = s1.scope.current.next_local_id;
                lemma_emit_wf(
                    s1.with_scope(s1.scope.bound(b.var.id, b.mutability)),
                    seq![JitInstruction::StoreLocal(slot)],
                );
            }
        },
        Statement::Rebind(r) => {
            if let Ok(s1) = compile_expr_spec(st, r.expr) {
                lemma_emit_wf(st, crate::interpreter::bytecode::compiler::expr_code(st.scope, r.expr));
                if let Ok(s2) = rebind_spec(s1, r.var) {
                    let d = r.var->Local_0;
                    let info = s1.scope.lookup(d.id)->Some_0;
                    lemma_emit_wf(s1, seq![JitInstruction::StoreLocal(info.local_id)]);
                }
            }
        },
        Statement::Ret(r) => {
            lemma_ret_wf(st, r);
        },
        Statement::CallStatement(c) => {
            if compile_call_spec(st, c) is Ok {
                lemma_emit_wf(st, crate::interpreter::bytecode::compiler::call_code(st.scope, c));
            }
        },
        Statement::IfStatement(i) => lemma_if_wf(st, i),
        Statement::LoopStatement(l) => lemma_loop_wf(st, l),
        Statement::Block(b) => lemma_block_wf(st, b),
        Statement::Break => {
            if let Some(t) = st.break_target {
                lemma_terminate_wf(st, JitTerminalInstruction::Jump(t));
            }
        },
    }
}

proof fn lemma_ret_wf(st: CompileState, r: crate::parser::ast::ret_statement::RetStatement)
    requires
        state_wf(st),
        st.open_block is Some,
    ensures
        step_keeps(st, ret_spec(st, r)),
{
    if crate::interpreter::bytecode::compiler::is_self_tail_call(st.fn_name, r.expr) {
        let c = r.expr.variant->CallExpression_0;
        if let Ok(s1) = compile_args_spec(st, c) {
            lemma_emit_wf(
                st,
                crate::interpreter::bytecode::compiler::args_code(st.scope, c, c.argument_list.expressions@.len()),
            );
            lemma_terminate_wf(s1, JitTerminalInstruction::Jump(st.entrypoint));
        }
    } else {
        if let Ok(s1) = compile_expr_spec(st, r.expr) {
            lemma_emit_wf(st, crate::interpreter::bytecode::compiler::expr_code(st.scope, r.expr));
            lemma_terminate_wf(s1, JitTerminalInstruction::Return);
        }
    }
}

proof fn lemma_block_wf(st: CompileState, b: Block)
    requires
        state_wf(st),
        st.open_block is Some,
    ensures
        step_keeps(st, block_spec(st, b)),
    decreases b, b.statements@.len() + 1,
{
    lemma_stmts_wf(st.with_scope(st.scope.entered()), b, b.statements@.len());
}

proof fn lemma_stmts_wf(st: CompileState, b: Block, n: nat)
    requires
        state_wf(st),
        st.open_block is Some,
    ensures
        step_keeps(st, stmts_spec(st, b, n)),
    decreases b, n,
{
    if n > 0 && n <= b.statements@.len() {
        lemma_stmts_wf(st, b, (n - 1) as nat);
        if let Ok(s1) = stmts_spec(st, b, (n - 1) as nat) {
            if s1.open_block is Some {
                lemma_stmt_wf(s1, b.statements@[n - 1]);
            }
        }
    }
}

proof fn lemma_if_wf(st: CompileState, i: IfStatement)
    requires
        state_wf(st),
        st.open_block is Some,
    ensures
        step_keeps(st, if_spec(st, i)),
    decreases i, 0nat,
{
    let (s1, if_id) = st.allocate();
    lemma_allocate_wf(st);
    let (s2, else_id) = s1.allocate();
    lemma_allocate_wf(s1);
    let (s3, join_id) = s2.allocate();
    lemma_allocate_wf(s2);
    if let Ok(s4) = compile_expr_spec(s3, *i.condition) {
        lemma_emit_wf(s3, crate::interpreter::bytecode::compiler::expr_code(s3.scope, *i.condition));
        let t = JitTerminalInstruction::ConditionalJump(
            crate::interpreter::bytecode::instruction::ConditionalJumpTargets { true_target: if_id, false_target: else_id },
        );
        lemma_terminate_wf(s4, t);
        if let Ok(s5) = s4.terminate(t) {
            lemma_block_wf(s5.start_block(if_id), i.body);
            if let Ok(s6) = block_spec(s5.start_block(if_id), i.body) {
                lemma_fallthrough_wf(s6, join_id);
                if let Ok(s7) = s6.fallthrough(join_id) {
                    lemma_else_wf(s7.start_block(else_id), i.else_clause);
                    if let Ok(s8) = else_spec(s7.start_block(else_id), i.else_clause) {
                        lemma_fallthrough_wf(s8, join_id);
                    }
                }
            }
        }
    }
}

proof fn lemma_else_wf(st: CompileState, e: ElseClause)
    requires
        state_wf(st),
        st.open_block is Some,
    ensures
        step_keeps(st, else_spec(st, e)),
    decreases e, 0nat,
{
    match e {
        ElseClause::Empty => {},
        ElseClause::Else(b) => lemma_block_wf(st, b),
        ElseClause::ElseIf(i) => lemma_if_wf(st, *i),
    }
}

proof fn lemma_loop_wf(st: CompileState, l: LoopStatement)
    requires
        state_wf(st),
        st.open_block is Some,
    ensures
        step_keeps(st, loop_spec(st, l)),
    decreases l, 0nat,
{
    let (s1, loop_id) = st.allocate();
    lemma_allocate_wf(st);
    let (s2, join_id) = s1.allocate();
    lemma_allocate_wf(s1);
    lemma_terminate_wf(s2, JitTerminalInstruction::Jump(loop_id));
    if let Ok(s3) = s2.terminate(JitTerminalInstruction::Jump(loop_id)) {
        let s4 = CompileState { break_target: Some(join_id), ..s3 };
        lemma_block_wf(s4.start_block(loop_id), l.body);
        if let Ok(s5) = block_spec(s4.start_block(loop_id), l.body) {
            lemma_fallthrough_wf(s5, loop_id);
        }
    }
}

proof fn lemma_params_wf(st: CompileState, f: FunctionDecl, k: nat)
    requires
        state_wf(st),
        st.open_block is Some,
    ensures
        params_spec(st, f, k) matches Ok(s) ==> step_keeps(st, Ok(s)) && s.open_block is Some,
    decreases k,
{
    let n = f.parameters.parameters@.len();
    if k > 0 && k <= n {
        lemma_params_wf(st, f, (k - 1) as nat);
        if let Ok(s1) = params_spec(st, f, (k - 1) as nat) {
            let slot = s1.scope.current.next_local_id;
            lemma_emit_wf(
                s1.with_scope(s1.scope.bound(f.parameters.parameters@[n - k].var.id, crate::parser::ast::bind_statement::Mutability::Immutable)),
                seq![JitInstruction::StoreLocal(slot)],
            );
        }
    }
}

/// Every jump of a compiled function goes to one of its blocks, and its
/// entry is one of them.
pub proof fn lemma_compiled_jumps_in_range(f: FunctionDecl)
    ensures
        compile_function_spec(f) matches Ok((entry, blocks)) ==> {
            &&& entry.0 < blocks.len()
            &&& forall|i: int| 0 <= i < blocks.len() ==> targets_in(#[trigger] blocks[i].terminator, blocks.len())
        },
{
    let st0 = initial_state(f);
    assert(state_wf(st0));
    lemma_params_wf(st0, f, f.parameters.parameters@.len());
    if let Ok(s1) = params_spec(st0, f, f.parameters.parameters@.len()) {
        lemma_block_wf(s1, f.body);
        if let Ok(s2) = block_spec(s1, f.body) {
            if s2.open_block is Some {
                lemma_emit_wf(s2, seq![JitInstruction::LoadUnit]);
                lemma_terminate_wf(s2.emit(JitInstruction::LoadUnit), JitTerminalInstruction::Return);
            }
        }
    }
    if let Ok(s) = fn_body_spec(f) {
        assert(state_wf(s));
    }
}

/// A function whose entry and jumps all lie among its blocks.
pub open spec fn fn_wf(f: FnModel) -> bool {
    &&& f.entrypoint.0 < f.blocks.len()
    &&& forall|b: int| 0 <= b < f.blocks.len() ==> targets_in(#[trigger] f.blocks[b].terminator, f.blocks.len())
}

/// A program all of whose functions are well-formed.
pub open spec fn program_wf(prog: Seq<FnModel>) -> bool {
    forall|i: int| 0 <= i < prog.len() ==> fn_wf(#[trigger] prog[i])
}

/// A frame that runs a function of the program, in one of its blocks.
pub open spec fn frame_in(prog: Seq<FnModel>, f: FrameModel) -> bool {
    f.function < prog.len() && f.block.0 < prog[f.function as int].blocks.len()
}

/// A machine whose every frame runs inside the program.
pub open spec fn machine_in(prog: Seq<FnModel>, m: MachineModel) -> bool {
    forall|k: int| 0 <= k < m.frames.len() ==> frame_in(prog, #[trigger] m.frames[k])
}

/// Every function a file compiles to is well-formed.
pub proof fn lemma_compiled_program_wf(decls: Seq<FunctionDecl>)
    ensures
        compile_program(decls) matches Ok(p) ==> program_wf(p),
    decreases decls.len(),
{
    if decls.len() > 0 {
        lemma_compiled_program_wf(decls.drop_last());
        lemma_compiled_jumps_in_range(decls.last());
        if let Ok(p) = compile_program(decls) {
            let q = compile_program(decls.drop_last())->Ok_0;
            let m = fn_model(decls.last())->Ok_0;
            assert(p == q.push(m));
            assert forall|i: int| 0 <= i < p.len() implies fn_wf(#[trigger] p[i]) by {
                if i < q.len() {
                    assert(p[i] == q[i]);
                }
            }
        }
    }
}

/// A call of a function of a well-formed program starts inside it.
pub proof fn lemma_initial_machine_in(prog: Seq<FnModel>, function: nat, args: Seq<Value>)
    requires
        program_wf(prog),
        function < prog.len(),
    ensures
        machine_in(prog, initial_machine(prog, function, args)),
{
    assert(fn_wf(prog[function as int]));
}

/// On a well-formed program, a step of the machine keeps every frame inside
/// the program: no jump, call or return leads outside its code.
pub proof fn lemma_step_stays_in(prog: Seq<FnModel>, m: MachineModel)
    requires
        program_wf(prog),
        machine_in(prog, m),
    ensures
        machine_step(prog, m) matches StepOutcome::Running(next) ==> machine_in(prog, next),
{
    if m.frames.len() > 0 {
        let f = m.frames.last();
        assert(frame_in(prog, f));
        let func = prog[f.function as int];
        assert(fn_wf(func));
        let block = func.blocks[f.block.0 as int];
        assert(targets_in(block.terminator, func.blocks.len()));
        if let StepOutcome::Running(next) = machine_step(prog, m) {
            assert forall|k: int| 0 <= k < next.frames.len() implies frame_in(prog, #[trigger] next.frames[k]) by {
                if k < m.frames.len() - 1 {
                    assert(frame_in(prog, m.frames[k]));
                }
                if k == next.frames.len() - 1 && next.frames.len() == m.frames.len() + 1 {
                    let callee = next.frames[k];
                    assert(fn_wf(prog[callee.function as int]));
                }
            }
        }
    }
}

} // verus!
