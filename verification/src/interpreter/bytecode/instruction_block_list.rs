use vstd::prelude::*;

use crate::interpreter::error::{reports, Failure, InterpreterError, InterpreterResult};

verus! {

/// The index of a block within a function.
#[derive(Clone, Copy, Debug, PartialEq, Eq, Structural)]
pub struct BlockId(pub usize);

impl BlockId {
    pub fn new(index: usize) -> (r: BlockId)
        ensures
            r.0 == index,
    {
        BlockId(index)
    }

    pub fn index(&self) -> (r: usize)
        ensures
            r == self.0,
    {
        self.0
    }
}

/// The blocks of a function, every one of them filled in.
pub struct BlockList<T> {
    blocks: Vec<T>,
}

impl<T> BlockList<T> {
    pub closed spec fn spec_blocks(&self) -> Seq<T> {
        self.blocks@
    }

    pub fn len(&self) -> (r: usize)
        ensures
            r == self.spec_blocks().len(),
    {
        self.blocks.len()
    }

    /// The block with the given ID.
    pub fn block(&self, block_id: BlockId) -> (r: &T)
        requires
            block_id.0 < self.spec_blocks().len(),
        ensures
            *r == self.spec_blocks()[block_id.0 as int],
    {
        &self.blocks[block_id.0]
    }
}

/// Blocks of a function under construction: IDs are allocated first, and
/// each block is filled in once it is complete.
pub struct BlockListBuilder<T> {
    blocks: Vec<Option<T>>,
}

impl<T> BlockListBuilder<T> {
    pub closed spec fn slots(&self) -> Seq<Option<T>> {
        self.blocks@
    }

    pub fn new() -> (r: Self)
        ensures
            r.slots() == Seq::<Option<T>>::empty(),
    {
        BlockListBuilder { blocks: Vec::new() }
    }

    /// Allocates the ID of a block that is filled in later.
    pub fn allocate_uninitialized(&mut self) -> (r: BlockId)
        ensures
            r.0 == old(self).slots().len(),
            final(self).slots() == old(self).slots().push(None),
    {
        let id = BlockId(self.blocks.len());
        self.blocks.push(None);
        id
    }

    /// Fills in an allocated block. Fails if the ID was never allocated or
    /// the block was already filled in.
    pub fn set(&mut self, block_id: BlockId, block: T) -> (r: InterpreterResult<()>)
        ensures
            r is Ok <==> (block_id.0 < old(self).slots().len() && old(self).slots()[block_id.0 as int] is None),
            r is Ok ==> final(self).slots() == old(self).slots().update(block_id.0 as int, Some(block)),
            r is Err ==> final(self).slots() == old(self).slots() && reports(r->Err_0, Failure::JitCompile("block set twice or never allocated"@)),
    {
        if block_id.0 < self.blocks.len() && self.blocks[block_id.0].is_none() {
            self.blocks.set(block_id.0, Some(block));
            Ok(())
        } else {
            Err(InterpreterError::jit_err("block set twice or never allocated"))
        }
    }

    /// The finished list. Fails with the first block that was never filled
    /// in, if any.
    pub fn build(self) -> (r: Result<BlockList<T>, BlockId>)
        ensures
            match r {
                Ok(list) => {
                    &&& list.spec_blocks().len() == self.slots().len()
                    &&& forall|i: int| 0 <= i < self.slots().len() ==> self.slots()[i] == Some(
                        #[trigger] list.spec_blocks()[i],
                    )
                },
                Err(id) => {
                    &&& id.0 < self.slots().len()
                    &&& self.slots()[id.0 as int] is None
                    &&& forall|i: int| 0 <= i < id.0 ==> #[trigger] self.slots()[i] is Some
                },
            },
    {
        let ghost slots = self.blocks@;
        let n = self.blocks.len();
        let mut i: usize = 0;
        while i < n
            invariant
                i <= n,
                n == slots.len(),
                self.blocks@ == slots,
                forall|j: int| 0 <= j < i ==> #[trigger] slots[j] is Some,
            decreases n - i,
        {
            if self.blocks[i].is_none() {
                return Err(BlockId(i));
            }
            i = i + 1;
        }
        let mut blocks = self.blocks;
        let mut out: Vec<T> = Vec::new();
        let mut rev: Vec<T> = Vec::new();
        while blocks.len() > 0
            invariant
                blocks@ == slots.subrange(0, blocks@.len() as int),
                rev@.len() + blocks@.len() == slots.len(),
                forall|j: int| 0 <= j < slots.len() ==> #[trigger] slots[j] is Some,
                forall|k: int| 0 <= k < rev@.len() ==> slots[slots.len() - 1 - k] == Some(#[trigger] rev@[k]),
            decreases blocks@.len(),
        {
            let slot = blocks.pop().unwrap();
            proof {
                assert(blocks@ =~= slots.subrange(0, blocks@.len() as int));
            }
            rev.push(slot.unwrap());
        }
        while rev.len() > 0
            invariant
                rev@.len() + out@.len() == slots.len(),
                forall|j: int| 0 <= j < slots.len() ==> #[trigger] slots[j] is Some,
                forall|k: int| 0 <= k < rev@.len() ==> slots[slots.len() - 1 - k] == Some(#[trigger] rev@[k]),
                forall|k: int| 0 <= k < out@.len() ==> slots[k] == Some(#[trigger] out@[k]),
            decreases rev@.len(),
        {
            let ghost before = rev@;
            let b = rev.pop().unwrap();
            proof {
                assert(slots[slots.len() - 1 - (before.len() - 1)] == Some(b));
            }
            out.push(b);
        }
        Ok(BlockList { blocks: out })
    }
}

} // verus!
