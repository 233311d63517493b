use vstd::prelude::*;

use crate::{
    interpreter::bytecode::{
        instruction_block_list::{BlockId, BlockList},
        local_table::LocalId,
    },
    parser::{
        ast::{binary_expression::BinaryOp, unary_experssion::UnaryOp},
        token::{ident::Ident, literal::Literal},
    },
};

verus! {

/// An instruction of the stack machine that does not leave its block.
#[derive(Debug)]
pub enum JitInstruction {
    /// Pops the right operand, then the left operand, and pushes the result
    /// of the operator.
    BinaryOp(BinaryOp),
    /// Pops the operand and pushes the result of the operator.
    UnaryOp(UnaryOp),
    /// Pushes the value of a literal.
    LoadLiteral(Literal),
    /// Pushes the unit value.
    LoadUnit,
    /// Pushes the value of a global name.
    LoadGlobal(Ident),
    /// Pushes the value of a local.
    LoadLocal(LocalId),
    /// Pops a value and stores it in a local.
    StoreLocal(LocalId),
    /// Pops a function value, then its arguments, calls it, and pushes the
    /// value it returns.
    Call(JitCallInstruction),
}

/// The instruction that ends a block.
#[derive(Debug)]
pub enum JitTerminalInstruction {
    /// Continues with another block of the same function.
    Jump(BlockId),
    /// Pops a value and continues with one of two blocks depending on it.
    ConditionalJump(ConditionalJumpTargets),
    /// Pops a value and returns it from the function.
    Return,
}

#[derive(Debug, Clone, Copy, PartialEq, Eq, Structural)]
pub struct ConditionalJumpTargets {
    pub true_target: BlockId,
    pub false_target: BlockId,
}

impl ConditionalJumpTargets {
    pub fn new(true_target: BlockId, false_target: BlockId) -> (r: Self)
        ensures
            r.true_target == true_target,
            r.false_target == false_target,
    {
        ConditionalJumpTargets { true_target, false_target }
    }
}

#[derive(Debug, Clone, Copy, PartialEq, Eq, Structural)]
pub struct JitCallInstruction {
    pub arity: u32,
}

impl JitCallInstruction {
    pub fn with_arity(arity: u32) -> (r: Self)
        ensures
            r.arity == arity,
    {
        JitCallInstruction { arity }
    }
}

/// A sequence of instructions that are always executed in order, followed
/// by a terminal instruction.
#[derive(Debug)]
pub struct JitInstructionBlock {
    pub instructions: Vec<JitInstruction>,
    pub terminator: JitTerminalInstruction,
}

impl JitInstructionBlock {
    pub fn new(instructions: Vec<JitInstruction>, terminator: JitTerminalInstruction) -> (r: Self)
        ensures
            r.instructions == instructions,
            r.terminator == terminator,
    {
        JitInstructionBlock { instructions, terminator }
    }

    pub fn instructions(&self) -> (r: &[JitInstruction])
        ensures
            r@ == self.instructions@,
    {
        self.instructions.as_slice()
    }

    pub fn terminator(&self) -> (r: &JitTerminalInstruction)
        ensures
            *r == self.terminator,
    {
        &self.terminator
    }
}

/// The abstract contents of an instruction block.
pub ghost struct BlockModel {
    pub instructions: Seq<JitInstruction>,
    pub terminator: JitTerminalInstruction,
}

impl View for JitInstructionBlock {
    type V = BlockModel;

    open spec fn view(&self) -> BlockModel {
        BlockModel { instructions: self.instructions@, terminator: self.terminator }
    }
}

/// The blocks of a compiled function and the block it starts at.
pub struct JitCompiledFunction {
    pub entrypoint: BlockId,
    pub blocks: BlockList<JitInstructionBlock>,
}

impl JitCompiledFunction {
    /// The contents of the blocks, in block ID order.
    pub open spec fn block_models(&self) -> Seq<BlockModel> {
        self.blocks.spec_blocks().map_values(|b: JitInstructionBlock| b@)
    }

    pub fn new(entrypoint: BlockId, blocks: BlockList<JitInstructionBlock>) -> (r: Self)
        ensures
            r.entrypoint == entrypoint,
            r.blocks == blocks,
    {
        JitCompiledFunction { entrypoint, blocks }
    }

    pub fn entrypoint(&self) -> (r: BlockId)
        ensures
            r == self.entrypoint,
    {
        self.entrypoint
    }

    pub fn num_blocks(&self) -> (r: usize)
        ensures
            r == self.blocks.spec_blocks().len(),
    {
        self.blocks.len()
    }

    pub fn block(&self, block_id: BlockId) -> (r: &JitInstructionBlock)
        requires
            block_id.0 < self.blocks.spec_blocks().len(),
        ensures
            *r == self.blocks.spec_blocks()[block_id.0 as int],
    {
        self.blocks.block(block_id)
    }
}

} // verus!
