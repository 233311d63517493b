use vstd::prelude::*;

use crate::interpreter::error::{InterpreterError, InterpreterResult};

verus! {

/// The slot number of a local variable within a function's frame.
#[derive(PartialEq, Eq, Structural, Debug, Clone, Copy)]
pub struct LocalId(pub u32);

impl LocalId {
    pub open spec fn index(self) -> nat {
        self.0 as nat
    }

    pub open spec fn spec_new(index: u32) -> LocalId {
        LocalId(index)
    }

    /// The local with the given slot number.
    pub fn new(index: u32) -> (r: LocalId)
        ensures
            r == LocalId::spec_new(index),
    {
        LocalId(index)
    }

    /// The first slot of a frame.
    pub fn first() -> (r: LocalId)
        ensures
            r.index() == 0,
    {
        LocalId(0)
    }

    /// The slot number.
    pub fn as_u32(self) -> (r: u32)
        ensures
            r == self.index(),
    {
        self.0
    }

    /// The slot that follows this one.
    pub fn next(self) -> (r: LocalId)
        requires
            self.index() < u32::MAX,
        ensures
            r.index() == self.index() + 1,
    {
        LocalId(self.0 + 1)
    }
}

/// A slot of a local table: either never written or holding a value.
pub enum LocalSlot<T> {
    Uninitialized,
    Val(T),
}

/// The local variables of one running function, indexed by [`LocalId`].
pub struct LocalTable<T> {
    slots: Vec<LocalSlot<T>>,
}

impl<T> LocalTable<T> {
    /// The slots of the table, in order.
    pub closed spec fn slots(&self) -> Seq<LocalSlot<T>> {
        self.slots@
    }

    /// The value held by a slot, if it was written.
    pub open spec fn value_at(&self, index: nat) -> Option<T> {
        slot_value(self.slots(), index)
    }

    pub fn new() -> (r: Self)
        ensures
            r.slots().len() == 0,
    {
        LocalTable { slots: Vec::new() }
    }

    /// Reads a local. Fails if the slot lies beyond the table or was never
    /// written.
    pub fn read(&self, local_id: LocalId) -> (r: InterpreterResult<&T>)
        ensures
            match self.value_at(local_id.index()) {
                Some(v) => r == Ok::<&T, InterpreterError>(&v),
                None => r is Err && r->Err_0 is Generic && r->Err_0->Generic_0@ == if local_id.index() < self.slots().len() {
                    "uninitialized local"@
                } else {
                    "bad local read"@
                },
            },
    {
        let index = local_id.as_u32() as usize;
        if index < self.slots.len() {
            match &self.slots[index] {
                LocalSlot::Val(value) => Ok(value),
                LocalSlot::Uninitialized => Err(InterpreterError::generic_err("uninitialized local")),
            }
        } else {
            Err(InterpreterError::generic_err("bad local read"))
        }
    }

    /// Writes a local, growing the table with uninitialized slots as needed.
    pub fn write(&mut self, local_id: LocalId, value: T)
        ensures
            final(self).slots() == slots_after_write(old(self).slots(), local_id.index(), value),
    {
        let index = local_id.as_u32() as usize;
        while self.slots.len() <= index
            invariant
                old(self).slots@.len() <= self.slots@.len(),
                self.slots@.len() > old(self).slots@.len() ==> self.slots@.len() <= index + 1,
                forall|i: int| 0 <= i < old(self).slots@.len() ==> self.slots@[i] == old(self).slots@[i],
                forall|i: int|
                    old(self).slots@.len() <= i < self.slots@.len() ==> self.slots@[i] is Uninitialized,
            decreases index + 1 - self.slots@.len(),
        {
            self.slots.push(LocalSlot::Uninitialized);
        }
        self.slots.set(index, LocalSlot::Val(value));
        proof {
            let expected = slots_after_write(old(self).slots(), local_id.index(), value);
            assert(self.slots@ =~= expected);
        }
    }
}

/// The slots after writing `value` at `index`: the table is first padded with
/// uninitialized slots up to `index`, then the slot is set.
pub open spec fn slots_after_write<T>(slots: Seq<LocalSlot<T>>, index: nat, value: T) -> Seq<LocalSlot<T>> {
    let padded = if index < slots.len() {
        slots
    } else {
        slots + Seq::new((index + 1 - slots.len()) as nat, |i: int| LocalSlot::<T>::Uninitialized)
    };
    padded.update(index as int, LocalSlot::Val(value))
}

/// Reading a local gives back what the last write to it stored; a write leaves
/// every other local as it was, and a slot that was never written reads as
/// missing.
pub proof fn lemma_read_after_write<T>(table: LocalTable<T>, written: nat, value: T, other: nat)
    ensures
        ({
            let after = slots_after_write(table.slots(), written, value);
            &&& slot_value(after, written) == Some(value)
            &&& other != written ==> slot_value(after, other) == table.value_at(other)
        }),
{
}

/// The slots after a sequence of writes, in order, each a slot number and a
/// value.
pub open spec fn slots_after_writes<T>(slots: Seq<LocalSlot<T>>, writes: Seq<(nat, T)>) -> Seq<LocalSlot<T>>
    decreases writes.len(),
{
    if writes.len() == 0 {
        slots
    } else {
        let last = writes.last();
        slots_after_write(slots_after_writes(slots, writes.drop_last()), last.0, last.1)
    }
}

/// A local keeps the value last written to it however many writes to other
/// locals follow.
pub proof fn lemma_read_after_other_writes<T>(slots: Seq<LocalSlot<T>>, index: nat, value: T, writes: Seq<(nat, T)>)
    requires
        forall|i: int| 0 <= i < writes.len() ==> (#[trigger] writes[i]).0 != index,
    ensures
        slot_value(slots_after_writes(slots_after_write(slots, index, value), writes), index) == Some(value),
    decreases writes.len(),
{
    let start = slots_after_write(slots, index, value);
    if writes.len() == 0 {
        assert(slot_value(start, index) == Some(value));
    } else {
        let rest = writes.drop_last();
        assert forall|i: int| 0 <= i < rest.len() implies (#[trigger] rest[i]).0 != index by {
            assert(rest[i] == writes[i]);
        }
        lemma_read_after_other_writes(slots, index, value, rest);
        let before = slots_after_writes(start, rest);
        let last = writes.last();
        assert(last == writes[writes.len() - 1]);
        let after = slots_after_write(before, last.0, last.1);
        assert(slot_value(after, index) == slot_value(before, index));
    }
}

/// The value a sequence of slots holds at `index`, if any.
pub open spec fn slot_value<T>(slots: Seq<LocalSlot<T>>, index: nat) -> Option<T> {
    if index < slots.len() {
        match slots[index as int] {
            LocalSlot::Val(v) => Some(v),
            LocalSlot::Uninitialized => None,
        }
    } else {
        None
    }
}

} // verus!
