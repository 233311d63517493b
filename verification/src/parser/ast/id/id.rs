use vstd::prelude::*;

verus! {

/// An identifier of an AST node. IDs of one kind are handed out
/// sequentially, so each is determined by its index.
pub trait AstId: Copy + Sized {
    /// The index of the ID within its kind.
    spec fn id_index(&self) -> nat;

    /// Two IDs with the same index are the same ID.
    proof fn lemma_index_injective(a: Self, b: Self)
        requires
            a.id_index() == b.id_index(),
        ensures
            a == b,
    ;

    /// The index of the ID fits in a `usize`.
    proof fn lemma_index_bounded(a: Self)
        ensures
            a.id_index() <= usize::MAX,
    ;

    /// The first ID of its kind.
    fn first() -> (r: Self)
        ensures
            r.id_index() == 0,
    ;

    /// The ID handed out after this one.
    fn next_id(&self) -> (r: Self)
        requires
            self.id_index() < usize::MAX,
        ensures
            r.id_index() == self.id_index() + 1,
    ;

    /// Returns the underlying integer of the ID.
    fn as_index(&self) -> (r: usize)
        ensures
            r == self.id_index(),
    ;

    /// Constructs an ID from an index.
    fn from_index(index: usize) -> (r: Self)
        ensures
            r.id_index() == index,
    ;
}

} // verus!
