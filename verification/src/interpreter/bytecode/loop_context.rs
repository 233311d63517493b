use vstd::prelude::*;

use crate::interpreter::bytecode::instruction_block_list::BlockId;

verus! {

/// Where a `break` continues: the block after the innermost enclosing loop,
/// if any.
#[derive(Debug)]
pub struct LoopContext {
    pub break_target: Option<BlockId>,
}

impl LoopContext {

    pub fn new(break_target: BlockId) -> (r: Self)
        ensures
            r.break_target == Some(break_target),
    {
        LoopContext { break_target: Some(break_target) }
    }

    pub fn break_target(&self) -> (r: Option<BlockId>)
        ensures
            r == self.break_target,
    {
        self.break_target
    }

    /// Sets a new break target and returns the context that it replaces.
    pub fn exchange(&mut self, break_target: BlockId) -> (r: Self)
        ensures
            final(self).break_target == Some(break_target),
            r.break_target == old(self).break_target,
    {
        let previous = self.break_target;
        self.break_target = Some(break_target);
        LoopContext { break_target: previous }
    }
}

impl Default for LoopContext {
    /// The context outside of any loop.
    fn default() -> (r: Self)
        ensures
            r.break_target is None,
    {
        LoopContext { break_target: None }
    }
}

} // verus!
