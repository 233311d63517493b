use vstd::prelude::*;

use crate::parser::ast::id::id::AstId;

verus! {

/// A map from the IDs of a contiguous range to values.
pub struct IdMap<ID: AstId, T> {
    offset: ID,
    data: Vec<Option<T>>,
}

impl<ID: AstId, T> IdMap<ID, T> {
    /// The first ID of the range.
    pub closed spec fn offset(&self) -> ID {
        self.offset
    }

    /// The entry of each ID of the range, in order.
    pub closed spec fn entries(&self) -> Seq<Option<T>> {
        self.data@
    }

    /// How many IDs the range holds.
    pub open spec fn len(&self) -> nat {
        self.entries().len()
    }

    /// Every ID of the range is representable.
    pub open spec fn ids_fit(&self) -> bool {
        self.offset().id_index() + self.len() <= usize::MAX
    }

    /// Whether the ID lies in the range of the map.
    pub open spec fn in_range(&self, id: ID) -> bool {
        self.offset().id_index() <= id.id_index() < self.offset().id_index() + self.len()
    }

    /// The entry of an ID of the range.
    pub open spec fn entry(&self, id: ID) -> Option<T> {
        self.entries()[id.id_index() - self.offset().id_index()]
    }

    fn idx(&self, id: ID) -> (r: usize)
        requires
            self.in_range(id),
        ensures
            r == id.id_index() - self.offset().id_index(),
            r < self.len(),
    {
        id.as_index() - self.offset.as_index()
    }

    /// The value stored for an ID of the range, if any.
    pub fn get(&self, id: ID) -> (r: Option<&T>)
        requires
            self.in_range(id),
        ensures
            r == match self.entry(id) {
                Some(v) => Some(&v),
                None => None::<&T>,
            },
    {
        let index = self.idx(id);
        self.data[index].as_ref()
    }

    /// Stores a value for an ID of the range, replacing any earlier one.
    pub fn insert(&mut self, id: ID, value: T)
        requires
            old(self).in_range(id),
        ensures
            final(self).offset() == old(self).offset(),
            final(self).entries() == old(self).entries().update(
                id.id_index() - old(self).offset().id_index(),
                Some(value),
            ),
    {
        let index = self.idx(id);
        self.data.set(index, Some(value));
    }

    /// The value stored for an ID of the range, if any, to be changed in
    /// place.
    pub fn get_mut(&mut self, id: ID) -> (r: Option<&mut T>)
        requires
            old(self).in_range(id),
        ensures
            final(self).offset() == old(self).offset(),
            match old(self).entry(id) {
                Some(v) => r is Some && *r->Some_0 == v && final(self).entries() == old(self).entries().update(
                    id.id_index() - old(self).offset().id_index(),
                    Some(*final(r->Some_0)),
                ),
                None => r is None && final(self).entries() == old(self).entries(),
            },
    {
        let index = self.idx(id);
        self.data[index].as_mut()
    }

    /// An empty map over the IDs from `start` up to, not including, `end`.
    pub fn from_range(start: ID, end: ID) -> (r: Self)
        requires
            start.id_index() <= end.id_index(),
        ensures
            r.offset() == start,
            r.len() == end.id_index() - start.id_index(),
            r.ids_fit(),
            forall|i: int| 0 <= i < r.len() ==> #[trigger] r.entries()[i] is None,
    {
        let mut data: Vec<Option<T>> = Vec::new();
        proof {
            ID::lemma_index_bounded(end);
        }
        let n = end.as_index() - start.as_index();
        let mut i: usize = 0;
        while i < n
            invariant
                i <= n,
                data@.len() == i,
                forall|j: int| 0 <= j < i ==> #[trigger] data@[j] is None,
            decreases n - i,
        {
            data.push(None);
            i = i + 1;
        }
        IdMap { offset: start, data }
    }

    /// The populated entries of the map in ID order, each with its ID.
    pub fn into_entries(self) -> (r: Vec<(ID, T)>)
        requires
            self.ids_fit(),
        ensures
            r@.len() == populated(self.entries()).len(),
            forall|k: int| 0 <= k < r@.len() ==> {
                &&& (#[trigger] r@[k]).0.id_index() == self.offset().id_index() + populated(self.entries())[k].0
                &&& r@[k].1 == populated(self.entries())[k].1
            },
    {
        let offset = self.offset;
        let ghost entries = self.data@;
        let mut data = self.data;
        let n = data.len();
        // Reverse the slots so that `pop` hands them out in ID order.
        let mut rev: Vec<Option<T>> = Vec::new();
        while data.len() > 0
            invariant
                data@.len() + rev@.len() == n,
                n == entries.len(),
                data@ == entries.subrange(0, data@.len() as int),
                forall|k: int| 0 <= k < rev@.len() ==> #[trigger] rev@[k] == entries[n - 1 - k],
            decreases data@.len(),
        {
            let slot = data.pop().unwrap();
            proof {
                assert(data@ =~= entries.subrange(0, data@.len() as int));
            }
            rev.push(slot);
        }
        let mut result: Vec<(ID, T)> = Vec::new();
        let mut i: usize = 0;
        proof {
            assert(entries.subrange(0, 0) =~= Seq::<Option<T>>::empty());
        }
        while i < n
            invariant
                i <= n,
                n == entries.len(),
                rev@.len() == n - i,
                offset.id_index() + n <= usize::MAX,
                forall|k: int| 0 <= k < rev@.len() ==> #[trigger] rev@[k] == entries[n - 1 - k],
                result@.len() == populated(entries.subrange(0, i as int)).len(),
                forall|k: int| 0 <= k < result@.len() ==> {
                    &&& (#[trigger] result@[k]).0.id_index() == offset.id_index() + populated(entries.subrange(0, i as int))[k].0
                    &&& result@[k].1 == populated(entries.subrange(0, i as int))[k].1
                },
            decreases n - i,
        {
            let slot = rev.pop().unwrap();
            proof {
                assert(entries.subrange(0, i + 1).drop_last() =~= entries.subrange(0, i as int));
                assert(slot == entries[i as int]);
            }
            if let Some(value) = slot {
                let id = ID::from_index(offset.as_index() + i);
                result.push((id, value));
            }
            i = i + 1;
        }
        proof {
            assert(entries.subrange(0, n as int) =~= entries);
        }
        result
    }
}

/// The populated slots of a range, in order, each with its position.
pub open spec fn populated<T>(entries: Seq<Option<T>>) -> Seq<(nat, T)>
    decreases entries.len(),
{
    if entries.len() == 0 {
        Seq::empty()
    } else {
        let p = populated(entries.drop_last());
        match entries.last() {
            Some(v) => p.push(((entries.len() - 1) as nat, v)),
            None => p,
        }
    }
}

/// A value stored for an ID is what a later `get` of that ID returns, and
/// storing it changes no other ID's entry.
pub proof fn lemma_get_after_insert<ID: AstId, T>(map: IdMap<ID, T>, id: ID, value: T, other: ID)
    requires
        map.in_range(id),
        map.in_range(other),
    ensures
        ({
            let entries = map.entries().update(id.id_index() - map.offset().id_index(), Some(value));
            &&& entries[id.id_index() - map.offset().id_index()] == Some(value)
            &&& other != id ==> entries[other.id_index() - map.offset().id_index()] == map.entry(other)
        }),
{
    if other != id {
        if other.id_index() == id.id_index() {
            ID::lemma_index_injective(other, id);
        }
    }
}

} // verus!
