use vstd::prelude::*;

use crate::{
    interpreter::{
        bytecode::{
            instruction::{BlockModel, ConditionalJumpTargets, JitCallInstruction, JitCompiledFunction, JitInstruction, JitTerminalInstruction},
            instruction_block_list::BlockId,
            local_table::{slot_value, slots_after_write, LocalId, LocalSlot, LocalTable},
        },
        error::{reports, Failure, InterpreterError, InterpreterResult},
        parse_as::parse_error_message,
        value::{binop_error, binop_spec, literal_spec, not_a_function, not_bool, truthy_spec, unop_spec, value_type_name, Value},
    },
    parser::{ast::binary_expression::BinaryOp, token::{ident::Ident, literal::Literal}},
};

verus! {

// ---------------------------------------------------------------------------
// The semantics of the stack machine.
// ---------------------------------------------------------------------------

/// A compiled function of a program, with its name.
pub ghost struct FnModel {
    pub name: Seq<char>,
    pub entrypoint: BlockId,
    pub blocks: Seq<BlockModel>,
}

/// A running function: which function, where in it, its locals and its
/// operand stack (top last).
pub ghost struct FrameModel {
    pub function: nat,
    pub block: BlockId,
    pub pc: nat,
    pub locals: Seq<LocalSlot<Value>>,
    pub stack: Seq<Value>,
}

/// The call stack of the machine, the running function last.
pub ghost struct MachineModel {
    pub frames: Seq<FrameModel>,
}

/// The failure of an instruction that needs more operands than the stack
/// holds.
pub open spec fn empty_stack() -> Failure {
    Failure::Internal("bad stack: empty"@)
}

/// What one step of the machine leads to.
pub ghost enum StepOutcome {
    Running(MachineModel),
    Returned(Value),
    Failed(Failure),
}

/// What running the machine for a number of steps leads to.
pub ghost enum RunOutcome {
    Returned(Value),
    Failed(Failure),
    OutOfFuel,
}

/// The index of the function with the given name; the last one counts.
pub open spec fn find_function(prog: Seq<FnModel>, name: Seq<char>) -> Option<nat>
    decreases prog.len(),
{
    if prog.len() == 0 {
        None
    } else if prog.last().name == name {
        Some((prog.len() - 1) as nat)
    } else {
        find_function(prog.drop_last(), name)
    }
}

/// A function found by name lies in the program and has that name.
pub proof fn lemma_find_function(prog: Seq<FnModel>, name: Seq<char>)
    ensures
        find_function(prog, name) matches Some(i) ==> i < prog.len() && prog[i as int].name == name,
    decreases prog.len(),
{
    if prog.len() > 0 && prog.last().name != name {
        lemma_find_function(prog.drop_last(), name);
    }
}

/// A function added to a program is what its name finds from then on, and
/// other names find what they found before.
pub proof fn lemma_added_function_found(prog: Seq<FnModel>, f: FnModel, other: Seq<char>)
    ensures
        find_function(prog.push(f), f.name) == Some(prog.len()),
        other != f.name ==> find_function(prog.push(f), other) == find_function(prog, other),
{
    assert(prog.push(f).drop_last() =~= prog);
}

/// The frame a call of function `function` starts with.
pub open spec fn call_frame(prog: Seq<FnModel>, function: nat, args: Seq<Value>) -> FrameModel {
    FrameModel { function, block: prog[function as int].entrypoint, pc: 0, locals: Seq::empty(), stack: args }
}

/// The machine at the start of a call of `function` with `args` (the last
/// argument on top of the stack).
pub open spec fn initial_machine(prog: Seq<FnModel>, function: nat, args: Seq<Value>) -> MachineModel {
    MachineModel { frames: seq![call_frame(prog, function, args)] }
}

/// The running frame replaced by `f`.
pub open spec fn with_top(m: MachineModel, f: FrameModel) -> MachineModel {
    MachineModel { frames: m.frames.update(m.frames.len() - 1, f) }
}

/// The running frame with `v` pushed and its next instruction selected.
pub open spec fn push_next(m: MachineModel, f: FrameModel, v: Value) -> StepOutcome {
    StepOutcome::Running(with_top(m, FrameModel { pc: f.pc + 1, stack: f.stack.push(v), ..f }))
}

/// Executes one instruction of the running frame `f`.
pub open spec fn instr_step(prog: Seq<FnModel>, m: MachineModel, f: FrameModel, instr: JitInstruction) -> StepOutcome {
    let n = f.stack.len();
    match instr {
        JitInstruction::BinaryOp(op) => if n < 2 {
            StepOutcome::Failed(empty_stack())
        } else {
            match binop_spec(op, f.stack[n - 2], f.stack[n - 1]) {
                Some(v) => push_next(m, FrameModel { stack: f.stack.subrange(0, n - 2), ..f }, v),
                None => StepOutcome::Failed(Failure::Value(binop_error(op, f.stack[n - 2], f.stack[n - 1]))),
            }
        },
        JitInstruction::UnaryOp(op) => if n < 1 {
            StepOutcome::Failed(empty_stack())
        } else {
            match unop_spec(op, f.stack[n - 1]) {
                Some(v) => push_next(m, FrameModel { stack: f.stack.drop_last(), ..f }, v),
                None => StepOutcome::Failed(Failure::Value(not_bool(f.stack[n - 1]))),
            }
        },
        JitInstruction::LoadLiteral(l) => match literal_spec(l) {
            Some(v) => push_next(m, f, v),
            None => StepOutcome::Failed(
                Failure::Value(
                    match l {
                        Literal::Integral(text) => parse_error_message(text@),
                    },
                ),
            ),
        },
        JitInstruction::LoadUnit => push_next(m, f, Value::Unit),
        JitInstruction::LoadGlobal(name) => match find_function(prog, name@) {
            Some(i) => push_next(m, f, Value::Function(i as usize)),
            None => StepOutcome::Failed(Failure::Internal("unbound variable: "@ + name@)),
        },
        JitInstruction::LoadLocal(id) => match slot_value(f.locals, id.index()) {
            Some(v) => push_next(m, f, v),
            None => StepOutcome::Failed(
                Failure::Generic(
                    if id.index() < f.locals.len() {
                        "uninitialized local"@
                    } else {
                        "bad local read"@
                    },
                ),
            ),
        },
        JitInstruction::StoreLocal(id) => if n < 1 {
            StepOutcome::Failed(empty_stack())
        } else {
            StepOutcome::Running(with_top(m, FrameModel {
                pc: f.pc + 1,
                locals: slots_after_write(f.locals, id.index(), f.stack[n - 1]),
                stack: f.stack.drop_last(),
                ..f
            }))
        },
        JitInstruction::Call(call) => if n < 1 {
            StepOutcome::Failed(empty_stack())
        } else {
            match f.stack[n - 1] {
                // The arguments are popped one by one, so too few of them find
                // the stack empty; a function outside the program is a bad call.
                Value::Function(i) => if n - 1 < call.arity {
                    StepOutcome::Failed(empty_stack())
                } else if i >= prog.len() {
                    StepOutcome::Failed(Failure::Internal("bad call"@))
                } else {
                    let base = n - 1 - call.arity;
                    let caller = FrameModel { pc: f.pc + 1, stack: f.stack.subrange(0, base), ..f };
                    let callee = call_frame(prog, i as nat, f.stack.subrange(base, n - 1));
                    StepOutcome::Running(MachineModel { frames: with_top(m, caller).frames.push(callee) })
                },
                v => StepOutcome::Failed(Failure::Value(not_a_function(v))),
            }
        },
    }
}

/// Executes the terminator of the running frame's block.
pub open spec fn terminator_step(m: MachineModel, f: FrameModel, t: JitTerminalInstruction) -> StepOutcome {
    let n = f.stack.len();
    match t {
        JitTerminalInstruction::Jump(b) => StepOutcome::Running(with_top(m, FrameModel { block: b, pc: 0, ..f })),
        JitTerminalInstruction::ConditionalJump(targets) => if n < 1 {
            StepOutcome::Failed(empty_stack())
        } else {
            match truthy_spec(f.stack[n - 1]) {
                Some(c) => StepOutcome::Running(with_top(m, FrameModel {
                    block: if c { targets.true_target } else { targets.false_target },
                    pc: 0,
                    stack: f.stack.drop_last(),
                    ..f
                })),
                None => StepOutcome::Failed(Failure::Value(not_bool(f.stack[n - 1]))),
            }
        },
        JitTerminalInstruction::Return => if n < 1 {
            StepOutcome::Failed(empty_stack())
        } else if m.frames.len() == 1 {
            StepOutcome::Returned(f.stack[n - 1])
        } else {
            let rest = m.frames.drop_last();
            let caller = rest.last();
            StepOutcome::Running(MachineModel {
                frames: rest.update(rest.len() - 1, FrameModel { stack: caller.stack.push(f.stack[n - 1]), ..caller }),
            })
        },
    }
}

/// One step of the machine: the next instruction of the running frame, or
/// the terminator of its block once its instructions are done.
pub open spec fn machine_step(prog: Seq<FnModel>, m: MachineModel) -> StepOutcome {
    if m.frames.len() == 0 {
        StepOutcome::Failed(Failure::Internal("bad stack: no frame"@))
    } else {
        let f = m.frames.last();
        if f.function >= prog.len() {
            StepOutcome::Failed(Failure::Internal("bad jump target"@))
        } else {
            let func = prog[f.function as int];
            if f.block.0 >= func.blocks.len() {
                StepOutcome::Failed(Failure::Internal("bad jump target"@))
            } else {
                let block = func.blocks[f.block.0 as int];
                if f.pc < block.instructions.len() {
                    instr_step(prog, m, f, block.instructions[f.pc as int])
                } else {
                    terminator_step(m, f, block.terminator)
                }
            }
        }
    }
}

/// The block a frame is running in, when the frame's function and block
/// exist.
pub open spec fn frame_block(prog: Seq<FnModel>, f: FrameModel) -> BlockModel {
    prog[f.function as int].blocks[f.block.0 as int]
}

/// Whether the frame's function and block exist in the program.
pub open spec fn frame_in_program(prog: Seq<FnModel>, f: FrameModel) -> bool {
    &&& f.function < prog.len()
    &&& f.block.0 < prog[f.function as int].blocks.len()
}

/// `ret` gives back the value on top of the running function's operand
/// stack, whatever lies below it: from the outermost call it is the result
/// of the run; from a nested call it is pushed on top of the caller's stack,
/// and the caller goes on where it was.
pub proof fn lemma_return_gives_top_of_stack(prog: Seq<FnModel>, m: MachineModel, below: Seq<Value>, v: Value)
    requires
        m.frames.len() > 0,
        frame_in_program(prog, m.frames.last()),
        frame_block(prog, m.frames.last()).terminator == JitTerminalInstruction::Return,
        m.frames.last().pc >= frame_block(prog, m.frames.last()).instructions.len(),
        m.frames.last().stack == below.push(v),
    ensures
        m.frames.len() == 1 ==> machine_step(prog, m) == StepOutcome::Returned(v),
        m.frames.len() > 1 ==> ({
            let caller = m.frames[m.frames.len() - 2];
            &&& machine_step(prog, m) is Running
            &&& machine_step(prog, m)->Running_0.frames == m.frames.subrange(0, m.frames.len() - 2).push(
                FrameModel { stack: caller.stack.push(v), ..caller },
            )
        }),
{
    let f = m.frames.last();
    assert(f.stack[f.stack.len() - 1] == v);
    if m.frames.len() > 1 {
        let rest = m.frames.drop_last();
        assert(rest.last() == m.frames[m.frames.len() - 2]);
        let caller = rest.last();
        assert(rest.update(rest.len() - 1, FrameModel { stack: caller.stack.push(v), ..caller })
            =~= m.frames.subrange(0, m.frames.len() - 2).push(FrameModel { stack: caller.stack.push(v), ..caller }));
    }
}

/// A binary operator takes its left operand from below its right one (the
/// operands' code runs left to right) and replaces both with its result;
/// the rest of the stack stays. Where the operator has no result, the run
/// fails with its error.
pub proof fn lemma_binary_operator_on_stack(
    prog: Seq<FnModel>,
    m: MachineModel,
    below: Seq<Value>,
    lhs: Value,
    rhs: Value,
    op: BinaryOp,
)
    requires
        m.frames.len() > 0,
        frame_in_program(prog, m.frames.last()),
        m.frames.last().pc < frame_block(prog, m.frames.last()).instructions.len(),
        frame_block(prog, m.frames.last()).instructions[m.frames.last().pc as int] == JitInstruction::BinaryOp(op),
        m.frames.last().stack == below.push(lhs).push(rhs),
    ensures
        ({
            let f = m.frames.last();
            match binop_spec(op, lhs, rhs) {
                Some(v) => machine_step(prog, m) == StepOutcome::Running(MachineModel {
                    frames: m.frames.drop_last().push(FrameModel { pc: f.pc + 1, stack: below.push(v), ..f }),
                }),
                None => machine_step(prog, m) == StepOutcome::Failed(Failure::Value(binop_error(op, lhs, rhs))),
            }
        }),
{
    let f = m.frames.last();
    let n = f.stack.len();
    assert(f.stack[n - 2] == lhs);
    assert(f.stack[n - 1] == rhs);
    assert(f.stack.subrange(0, n - 2) =~= below);
    match binop_spec(op, lhs, rhs) {
        Some(v) => {
            assert(with_top(m, FrameModel { pc: f.pc + 1, stack: below.push(v), ..f }).frames
                =~= m.frames.drop_last().push(FrameModel { pc: f.pc + 1, stack: below.push(v), ..f }));
        },
        None => {},
    }
}

/// A conditional jump takes the value on top of the stack as its condition:
/// it removes it and goes to the start of the true target when the value
/// counts as true, of the false target when it counts as false; the rest of
/// the stack stays.
pub proof fn lemma_conditional_jump_on_top(
    prog: Seq<FnModel>,
    m: MachineModel,
    below: Seq<Value>,
    condition: Value,
    targets: ConditionalJumpTargets,
)
    requires
        m.frames.len() > 0,
        frame_in_program(prog, m.frames.last()),
        frame_block(prog, m.frames.last()).terminator == JitTerminalInstruction::ConditionalJump(targets),
        m.frames.last().pc >= frame_block(prog, m.frames.last()).instructions.len(),
        m.frames.last().stack == below.push(condition),
    ensures
        ({
            let f = m.frames.last();
            match truthy_spec(condition) {
                Some(c) => machine_step(prog, m) == StepOutcome::Running(MachineModel {
                    frames: m.frames.drop_last().push(FrameModel {
                        block: if c { targets.true_target } else { targets.false_target },
                        pc: 0,
                        stack: below,
                        ..f
                    }),
                }),
                None => machine_step(prog, m) == StepOutcome::Failed(Failure::Value(not_bool(condition))),
            }
        }),
{
    let f = m.frames.last();
    assert(f.stack[f.stack.len() - 1] == condition);
    assert(f.stack.drop_last() =~= below);
    match truthy_spec(condition) {
        Some(c) => {
            let g = FrameModel { block: if c { targets.true_target } else { targets.false_target }, pc: 0, stack: below, ..f };
            assert(with_top(m, g).frames =~= m.frames.drop_last().push(g));
        },
        None => {},
    }
}

/// A call of a function with `k` arguments takes the callee from the top of
/// the stack and the `k` values below it as the callee's arguments, in the
/// order they were pushed; the caller keeps the rest of its stack and goes on
/// after the call once the callee returns. The callee starts at its entry
/// block with no locals.
pub proof fn lemma_call_passes_arguments_in_order(
    prog: Seq<FnModel>,
    m: MachineModel,
    below: Seq<Value>,
    args: Seq<Value>,
    callee: usize,
    call: JitCallInstruction,
)
    requires
        m.frames.len() > 0,
        frame_in_program(prog, m.frames.last()),
        m.frames.last().pc < frame_block(prog, m.frames.last()).instructions.len(),
        frame_block(prog, m.frames.last()).instructions[m.frames.last().pc as int] == JitInstruction::Call(call),
        call.arity == args.len(),
        callee < prog.len(),
        m.frames.last().stack == below + args.push(Value::Function(callee)),
    ensures
        ({
            let f = m.frames.last();
            machine_step(prog, m) == StepOutcome::Running(MachineModel {
                frames: m.frames.drop_last().push(FrameModel { pc: f.pc + 1, stack: below, ..f }).push(
                    FrameModel {
                        function: callee as nat,
                        block: prog[callee as int].entrypoint,
                        pc: 0,
                        locals: Seq::empty(),
                        stack: args,
                    },
                ),
            })
        }),
{
    let f = m.frames.last();
    let n = f.stack.len();
    assert(f.stack[n - 1] == Value::Function(callee));
    let base = n - 1 - call.arity;
    assert(f.stack.subrange(0, base) =~= below);
    assert(f.stack.subrange(base, n - 1) =~= args);
    let caller = FrameModel { pc: f.pc + 1, stack: below, ..f };
    assert(with_top(m, caller).frames =~= m.frames.drop_last().push(caller));
}

/// Storing the top of the stack in a local and loading that local right
/// after gives the stored value back on top of the same stack, and the local
/// keeps the value.
pub proof fn lemma_store_then_load_gives_the_value(
    prog: Seq<FnModel>,
    m: MachineModel,
    below: Seq<Value>,
    v: Value,
    id: LocalId,
)
    requires
        m.frames.len() > 0,
        frame_in_program(prog, m.frames.last()),
        m.frames.last().pc + 1 < frame_block(prog, m.frames.last()).instructions.len(),
        frame_block(prog, m.frames.last()).instructions[m.frames.last().pc as int] == JitInstruction::StoreLocal(id),
        frame_block(prog, m.frames.last()).instructions[m.frames.last().pc + 1int] == JitInstruction::LoadLocal(id),
        m.frames.last().stack == below.push(v),
    ensures
        machine_step(prog, m) is Running,
        machine_step(prog, machine_step(prog, m)->Running_0) is Running,
        ({
            let after = machine_step(prog, machine_step(prog, m)->Running_0)->Running_0;
            &&& after.frames.len() == m.frames.len()
            &&& after.frames.drop_last() == m.frames.drop_last()
            &&& after.frames.last().stack == below.push(v)
            &&& after.frames.last().pc == m.frames.last().pc + 2
            &&& slot_value(after.frames.last().locals, id.index()) == Some(v)
        }),
{
    let f = m.frames.last();
    assert(f.stack[f.stack.len() - 1] == v);
    assert(f.stack.drop_last() =~= below);
    let locals = slots_after_write(f.locals, id.index(), v);
    crate::interpreter::bytecode::local_table::lemma_read_after_other_writes(
        f.locals,
        id.index(),
        v,
        Seq::<(nat, Value)>::empty(),
    );
    let g = FrameModel { pc: f.pc + 1, locals, stack: below, ..f };
    let m1 = with_top(m, g);
    assert(m1.frames.last() == g);
    assert(m1.frames.drop_last() =~= m.frames.drop_last());
    let h = FrameModel { pc: g.pc + 1, stack: below.push(v), ..g };
    let m2 = with_top(m1, h);
    assert(m2.frames.drop_last() =~= m.frames.drop_last());
    assert(m2.frames.last() == h);
}

/// Runs the machine for at most `fuel` steps.
pub open spec fn run(prog: Seq<FnModel>, m: MachineModel, fuel: nat) -> RunOutcome
    decreases fuel,
{
    if fuel == 0 {
        RunOutcome::OutOfFuel
    } else {
        match machine_step(prog, m) {
            StepOutcome::Running(next) => run(prog, next, (fuel - 1) as nat),
            StepOutcome::Returned(v) => RunOutcome::Returned(v),
            StepOutcome::Failed(why) => RunOutcome::Failed(why),
        }
    }
}

// ---------------------------------------------------------------------------
// The machine.
// ---------------------------------------------------------------------------

/// The compiled functions of a program, each with its name.
pub struct Program {
    functions: Vec<(Ident, JitCompiledFunction)>,
}

impl View for Program {
    type V = Seq<FnModel>;

    closed spec fn view(&self) -> Seq<FnModel> {
        self.functions@.map_values(
            |p: (Ident, JitCompiledFunction)|
                FnModel { name: p.0@, entrypoint: p.1.entrypoint, blocks: p.1.block_models() },
        )
    }
}

impl Program {
    pub fn new() -> (r: Program)
        ensures
            r@ == Seq::<FnModel>::empty(),
    {
        let r = Program { functions: Vec::new() };
        proof {
            assert(r@ =~= Seq::<FnModel>::empty());
        }
        r
    }

    /// Adds a compiled function under a name.
    pub fn add_function(&mut self, name: Ident, function: JitCompiledFunction)
        ensures
            final(self)@ == old(self)@.push(
                FnModel { name: name@, entrypoint: function.entrypoint, blocks: function.block_models() },
            ),
    {
        let ghost entry = FnModel { name: name@, entrypoint: function.entrypoint, blocks: function.block_models() };
        self.functions.push((name, function));
        proof {
            assert(self@ =~= old(self)@.push(entry));
        }
    }

    pub fn len(&self) -> (r: usize)
        ensures
            r == self@.len(),
    {
        self.functions.len()
    }

    /// The index of the function with the given name; the last one counts.
    pub fn find_function(&self, name: &Ident) -> (r: Option<usize>)
        ensures
            match find_function(self@, name@) {
                Some(i) => r is Some && r->Some_0 == i,
                None => r is None,
            },
    {
        let mut i = self.functions.len();
        proof {
            assert(self@.subrange(0, i as int) =~= self@);
        }
        while i > 0
            invariant
                i <= self@.len(),
                self@.len() == self.functions@.len(),
                find_function(self@, name@) == find_function(self@.subrange(0, i as int), name@),
            decreases i,
        {
            let ghost prefix = self@.subrange(0, i as int);
            if self.functions[i - 1].0.same_name(name) {
                return Some(i - 1);
            }
            i = i - 1;
            proof {
                assert(prefix.drop_last() =~= self@.subrange(0, i as int));
            }
        }
        None
    }

    /// The compiled function with the given name; the last one counts.
    pub fn lookup_function(&self, name: &Ident) -> (r: Option<&JitCompiledFunction>)
        ensures
            match find_function(self@, name@) {
                Some(i) => r is Some && r->Some_0.entrypoint == self@[i as int].entrypoint
                    && r->Some_0.block_models() == self@[i as int].blocks,
                None => r is None,
            },
    {
        let _n = self.functions.len();
        proof {
            lemma_find_function(self@, name@);
        }
        match self.find_function(name) {
            Some(i) => {
                let f = &self.functions[i].1;
                proof {
                    assert(self@[i as int] == FnModel {
                        name: self.functions@[i as int].0@,
                        entrypoint: f.entrypoint,
                        blocks: f.block_models(),
                    });
                }
                Some(f)
            },
            None => None,
        }
    }

    /// The value a global name denotes: the function with that name.
    pub fn resolve_ident(&self, name: &Ident) -> (r: InterpreterResult<Value>)
        ensures
            match find_function(self@, name@) {
                Some(i) => r == Ok::<Value, InterpreterError>(Value::Function(i as usize)),
                None => r is Err && reports(r->Err_0, Failure::Internal("unbound variable: "@ + name@)),
            },
    {
        match self.find_function(name) {
            Some(i) => Ok(Value::Function(i)),
            None => {
                let mut m = String::from_str("unbound variable: ");
                m.append(name.name());
                Err(InterpreterError::Internal(m))
            },
        }
    }

    fn block_of(&self, function: usize, block: BlockId) -> (r: &crate::interpreter::bytecode::instruction::JitInstructionBlock)
        requires
            function < self@.len(),
            block.0 < self@[function as int].blocks.len(),
        ensures
            r@ == self@[function as int].blocks[block.0 as int],
    {
        self.functions[function].1.block(block)
    }

    fn entrypoint_of(&self, function: usize) -> (r: BlockId)
        requires
            function < self@.len(),
        ensures
            r == self@[function as int].entrypoint,
    {
        self.functions[function].1.entrypoint()
    }

    fn num_blocks_of(&self, function: usize) -> (r: usize)
        requires
            function < self@.len(),
        ensures
            r == self@[function as int].blocks.len(),
    {
        self.functions[function].1.num_blocks()
    }
}

/// A running function.
struct Frame {
    function: usize,
    block: BlockId,
    pc: usize,
    locals: LocalTable<Value>,
    stack: Vec<Value>,
}

impl View for Frame {
    type V = FrameModel;

    closed spec fn view(&self) -> FrameModel {
        FrameModel {
            function: self.function as nat,
            block: self.block,
            pc: self.pc as nat,
            locals: self.locals.slots(),
            stack: self.stack@,
        }
    }
}

spec fn frames_view(frames: Seq<Frame>) -> MachineModel {
    MachineModel { frames: frames.map_values(|f: Frame| f@) }
}

/// What one step of the machine did.
enum Step {
    Running,
    Returned(Value),
    Failed(InterpreterError),
}

proof fn lemma_replace_top(rest: Seq<Frame>, old_top: Frame, new_top: Frame)
    ensures
        frames_view(rest.push(new_top)) == with_top(frames_view(rest.push(old_top)), new_top@),
{
    assert(frames_view(rest.push(new_top)).frames =~= with_top(frames_view(rest.push(old_top)), new_top@).frames);
}

proof fn lemma_push_frame(rest: Seq<Frame>, old_top: Frame, new_top: Frame, callee: Frame)
    ensures
        frames_view(rest.push(new_top).push(callee)).frames
            == with_top(frames_view(rest.push(old_top)), new_top@).frames.push(callee@),
{
    assert(frames_view(rest.push(new_top).push(callee)).frames =~= with_top(
        frames_view(rest.push(old_top)),
        new_top@,
    ).frames.push(callee@));
}

proof fn lemma_pop_frame(rest: Seq<Frame>, top: Frame)
    ensures
        frames_view(rest.push(top)).frames.drop_last() == frames_view(rest).frames,
        frames_view(rest.push(top)).frames.last() == top@,
        frames_view(rest.push(top)).frames.len() == rest.len() + 1,
{
    assert(frames_view(rest.push(top)).frames.drop_last() =~= frames_view(rest).frames);
}

/// Executes one instruction or terminator of the running frame.
fn machine_step_exec(program: &Program, frames: &mut Vec<Frame>) -> (r: Step)
    ensures
        match machine_step(program@, frames_view(old(frames)@)) {
            StepOutcome::Running(m) => r is Running && frames_view(final(frames)@) == m,
            StepOutcome::Returned(v) => r == Step::Returned(v),
            StepOutcome::Failed(why) => r is Failed && reports(r->Failed_0, why),
        },
{
    let ghost m = frames_view(frames@);
    if frames.len() == 0 {
        return Step::Failed(InterpreterError::internal_err("bad stack: no frame"));
    }
    let mut f = frames.pop().unwrap();
    let ghost rest = frames@;
    let ghost f0 = f;
    proof {
        assert(old(frames)@ =~= rest.push(f0));
        lemma_pop_frame(rest, f0);
    }
    if f.function >= program.len() || f.block.0 >= program.num_blocks_of(f.function) {
        return Step::Failed(InterpreterError::internal_err("bad jump target"));
    }
    let block = program.block_of(f.function, f.block);
    let instructions = block.instructions();
    if f.pc < instructions.len() {
        let instr = &instructions[f.pc];
        match instr {
            JitInstruction::BinaryOp(op) => {
                if f.stack.len() < 2 {
                    return Step::Failed(InterpreterError::internal_err("bad stack: empty"));
                }
                let rhs = f.stack.pop().unwrap();
                let lhs = f.stack.pop().unwrap();
                match Value::apply_binary_op(*op, &lhs, &rhs) {
                    Ok(v) => {
                        f.stack.push(v);
                        f.pc = f.pc + 1;
                        proof {
                            assert(f.stack@ =~= f0.stack@.subrange(0, f0.stack@.len() - 2).push(v));
                        }
                    },
                    Err(e) => return Step::Failed(e),
                }
            },
            JitInstruction::UnaryOp(op) => {
                if f.stack.len() < 1 {
                    return Step::Failed(InterpreterError::internal_err("bad stack: empty"));
                }
                let operand = f.stack.pop().unwrap();
                match Value::apply_unary_op(*op, &operand) {
                    Ok(v) => {
                        f.stack.push(v);
                        f.pc = f.pc + 1;
                    },
                    Err(e) => return Step::Failed(e),
                }
            },
            JitInstruction::LoadLiteral(literal) => {
                match Value::from_literal(literal) {
                    Ok(v) => {
                        f.stack.push(v);
                        f.pc = f.pc + 1;
                    },
                    Err(e) => return Step::Failed(e),
                }
            },
            JitInstruction::LoadUnit => {
                f.stack.push(Value::Unit);
                f.pc = f.pc + 1;
            },
            JitInstruction::LoadGlobal(name) => {
                match program.resolve_ident(name) {
                    Ok(v) => {
                        f.stack.push(v);
                        f.pc = f.pc + 1;
                    },
                    Err(e) => return Step::Failed(e),
                }
            },
            JitInstruction::LoadLocal(local_id) => {
                let v = match f.locals.read(*local_id) {
                    Ok(v) => *v,
                    Err(e) => return Step::Failed(e),
                };
                f.stack.push(v);
                f.pc = f.pc + 1;
            },
            JitInstruction::StoreLocal(local_id) => {
                if f.stack.len() < 1 {
                    return Step::Failed(InterpreterError::internal_err("bad stack: empty"));
                }
                let v = f.stack.pop().unwrap();
                f.locals.write(*local_id, v);
                f.pc = f.pc + 1;
            },
            JitInstruction::Call(call) => {
                if f.stack.len() < 1 {
                    return Step::Failed(InterpreterError::internal_err("bad stack: empty"));
                }
                let target = f.stack.pop().unwrap();
                let callee_index = match target.as_jit_function() {
                    Ok(i) => i,
                    Err(e) => return Step::Failed(e),
                };
                let arity = call.arity as usize;
                if f.stack.len() < arity {
                    return Step::Failed(InterpreterError::internal_err("bad stack: empty"));
                }
                if callee_index >= program.len() {
                    return Step::Failed(InterpreterError::internal_err("bad call"));
                }
                let base = f.stack.len() - arity;
                let args = f.stack.split_off(base);
                f.pc = f.pc + 1;
                let callee = Frame {
                    function: callee_index,
                    block: program.entrypoint_of(callee_index),
                    pc: 0,
                    locals: LocalTable::new(),
                    stack: args,
                };
                proof {
                    let n = f0.stack@.len();
                    assert(f.stack@ =~= f0.stack@.subrange(0, base as int));
                    assert(callee.stack@ =~= f0.stack@.subrange(base as int, n - 1));
                    assert(callee.locals.slots() =~= Seq::<LocalSlot<Value>>::empty());
                    lemma_push_frame(rest, f0, f, callee);
                }
                frames.push(f);
                frames.push(callee);
                return Step::Running;
            },
        }
        proof {
            lemma_replace_top(rest, f0, f);
        }
        frames.push(f);
        Step::Running
    } else {
        match block.terminator() {
            JitTerminalInstruction::Jump(target) => {
                f.block = *target;
                f.pc = 0;
            },
            JitTerminalInstruction::ConditionalJump(targets) => {
                if f.stack.len() < 1 {
                    return Step::Failed(InterpreterError::internal_err("bad stack: empty"));
                }
                let condition = f.stack.pop().unwrap();
                match condition.is_truthy() {
                    Ok(c) => {
                        f.block = if c {
                            targets.true_target
                        } else {
                            targets.false_target
                        };
                        f.pc = 0;
                    },
                    Err(e) => return Step::Failed(e),
                }
            },
            JitTerminalInstruction::Return => {
                if f.stack.len() < 1 {
                    return Step::Failed(InterpreterError::internal_err("bad stack: empty"));
                }
                let v = f.stack.pop().unwrap();
                if frames.len() == 0 {
                    return Step::Returned(v);
                }
                let mut caller = frames.pop().unwrap();
                let ghost rest2 = frames@;
                let ghost c0 = caller;
                proof {
                    assert(rest =~= rest2.push(c0));
                    lemma_pop_frame(rest2, c0);
                }
                caller.stack.push(v);
                proof {
                    lemma_replace_top(rest2, c0, caller);
                    assert(m.frames.drop_last() == frames_view(rest).frames);
                }
                frames.push(caller);
                return Step::Running;
            },
        }
        proof {
            lemma_replace_top(rest, f0, f);
        }
        frames.push(f);
        Step::Running
    }
}

/// Runs the function with index `function` on `args` (the last argument on
/// top of the stack) for at most `fuel` steps, and returns what it returns.
#[verifier::loop_isolation(false)]
pub fn evaluate_function(program: &Program, function: usize, args: Vec<Value>, fuel: u64) -> (r: InterpreterResult<Value>)
    requires
        function < program@.len(),
    ensures
        match run(program@, initial_machine(program@, function as nat, args@), fuel as nat) {
            RunOutcome::Returned(v) => r == Ok::<Value, InterpreterError>(v),
            RunOutcome::Failed(why) => r is Err && reports(r->Err_0, why),
            RunOutcome::OutOfFuel => r is Err && reports(r->Err_0, Failure::Generic("step limit reached"@)),
        },
{
    let ghost init = initial_machine(program@, function as nat, args@);
    let first = Frame {
        function,
        block: program.entrypoint_of(function),
        pc: 0,
        locals: LocalTable::new(),
        stack: args,
    };
    let mut frames: Vec<Frame> = Vec::new();
    frames.push(first);
    proof {
        assert(first.locals.slots() =~= Seq::<LocalSlot<Value>>::empty());
        assert(frames_view(frames@).frames =~= init.frames);
    }
    let mut remaining = fuel;
    loop
        invariant
            run(program@, init, fuel as nat) == run(program@, frames_view(frames@), remaining as nat),
        decreases remaining,
    {
        if remaining == 0 {
            return Err(InterpreterError::generic_err("step limit reached"));
        }
        match machine_step_exec(program, &mut frames) {
            Step::Running => {
                remaining = remaining - 1;
            },
            Step::Returned(v) => return Ok(v),
            Step::Failed(e) => return Err(e),
        }
    }
}

} // verus!
