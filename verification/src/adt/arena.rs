use vstd::prelude::*;

verus! {

/// How many values one chunk holds.
pub const CHUNK_SIZE: usize = 512;

/// A fixed-capacity chunk of values.
struct Chunk<T> {
    values: Vec<T>,
}

impl<T> Chunk<T> {
    fn default() -> (r: Self)
        ensures
            r.values@.len() == 0,
    {
        Chunk { values: Vec::with_capacity(CHUNK_SIZE) }
    }

    fn full(&self) -> (r: bool)
        ensures
            r == (self.values@.len() == CHUNK_SIZE),
    {
        self.values.len() == CHUNK_SIZE
    }

    /// Adds a value to a chunk with room left; returns its position in the
    /// chunk.
    fn push(&mut self, value: T) -> (r: usize)
        requires
            old(self).values@.len() < CHUNK_SIZE,
        ensures
            r == old(self).values@.len(),
            final(self).values@ == old(self).values@.push(value),
    {
        let r = self.values.len();
        self.values.push(value);
        r
    }
}

/// An arena of values: values are only ever added, each stays where it was
/// put, and each is found again by the handle `allocate` returned. Values are
/// kept in chunks of [`CHUNK_SIZE`], so adding one never moves another.
pub struct Arena<T> {
    chunks: Vec<Chunk<T>>,
}

/// The values of chunks laid end to end, where every chunk but the last is
/// full: value `i` lies in chunk `i / CHUNK_SIZE` at `i % CHUNK_SIZE`.
spec fn chunked_values<T>(chunks: Seq<Chunk<T>>) -> Seq<T> {
    let n = chunks.len();
    let len = if n == 0 { 0 } else { (n - 1) * CHUNK_SIZE + chunks.last().values@.len() };
    Seq::new(len as nat, |i: int| chunks[i / CHUNK_SIZE as int].values@[i % CHUNK_SIZE as int])
}

impl<T> View for Arena<T> {
    type V = Seq<T>;

    closed spec fn view(&self) -> Seq<T> {
        chunked_values(self.chunks@)
    }
}

impl<T> Default for Arena<T> {
    /// An arena with no value.
    fn default() -> (r: Self)
        ensures
            r.wf(),
            r@ == Seq::<T>::empty(),
    {
        let mut chunks = Vec::new();
        chunks.push(Chunk::default());
        let r = Arena { chunks };
        proof {
            assert(r@ =~= Seq::<T>::empty());
        }
        r
    }
}

impl<T> Arena<T> {
    /// Every chunk but the last is full, and there is a last chunk.
    pub closed spec fn wf(&self) -> bool {
        &&& self.chunks@.len() > 0
        &&& forall|c: int| 0 <= c < self.chunks@.len() - 1 ==> #[trigger] self.chunks@[c].values@.len() == CHUNK_SIZE
        &&& self.chunks@.last().values@.len() <= CHUNK_SIZE
        &&& (self.chunks@.len() - 1) * CHUNK_SIZE + self.chunks@.last().values@.len() <= usize::MAX
    }

    /// How many values the arena holds.
    pub fn len(&self) -> (r: usize)
        requires
            self.wf(),
        ensures
            r == self@.len(),
    {
        let n = self.chunks.len();
        let last = self.chunks[n - 1].values.len();
        (n - 1) * CHUNK_SIZE + last
    }

    /// The index of a chunk with room: the last one, after adding an empty
    /// chunk if the last one was full.
    fn chunk_with_capacity(&mut self) -> (r: usize)
        requires
            old(self).wf(),
        ensures
            final(self).wf(),
            final(self)@ == old(self)@,
            r == final(self).chunks@.len() - 1,
            final(self).chunks@[r as int].values@.len() < CHUNK_SIZE,
            final(self).chunks@.len() - 1 == old(self)@.len() as int / (CHUNK_SIZE as int),
            final(self).chunks@[r as int].values@.len() == old(self)@.len() as int % (CHUNK_SIZE as int),
    {
        let n = self.chunks.len();
        if self.chunks[n - 1].full() {
            let ghost before = self.chunks@;
            self.chunks.push(Chunk::default());
            proof {
                assert(chunked_values(self.chunks@) =~= chunked_values(before)) by {
                    assert forall|i: int| 0 <= i < chunked_values(before).len() implies
                        #[trigger] chunked_values(self.chunks@)[i] == chunked_values(before)[i] by {
                        lemma_chunk_of(i, n as int);
                    }
                }
                lemma_div_mod_chunk(n as int, 0);
            }
            n
        } else {
            proof {
                lemma_div_mod_chunk((n - 1) as int, self.chunks@[n - 1].values@.len() as int);
            }
            n - 1
        }
    }

    /// Adds a value and returns its handle: the number of values added
    /// before it.
    pub fn allocate(&mut self, value: T) -> (r: usize)
        requires
            old(self).wf(),
            old(self)@.len() < usize::MAX,
        ensures
            final(self).wf(),
            r == old(self)@.len(),
            final(self)@ == old(self)@.push(value),
    {
        let ghost before = self@;
        let c = self.chunk_with_capacity();
        let ghost mid = self.chunks@;
        let mut chunk = self.chunks.pop().unwrap();
        let offset = chunk.push(value);
        self.chunks.push(chunk);
        proof {
            let n = self.chunks@.len();
            assert(forall|j: int| 0 <= j < c ==> #[trigger] self.chunks@[j] == mid[j]);
            assert(self.chunks@[c as int].values@ == mid[c as int].values@.push(value));
            vstd::arithmetic::div_mod::lemma_fundamental_div_mod(before.len() as int, CHUNK_SIZE as int);
            lemma_div_mod_chunk(c as int, offset as int);
            assert forall|i: int| 0 <= i < before.len() implies #[trigger] self@[i] == before[i] by {
                lemma_chunk_of(i, n as int);
                if i / (CHUNK_SIZE as int) == c as int {
                    vstd::arithmetic::div_mod::lemma_fundamental_div_mod(i, CHUNK_SIZE as int);
                    assert(i % (CHUNK_SIZE as int) < offset);
                }
            }
            assert(self@ =~= before.push(value));
        }
        c * CHUNK_SIZE + offset
    }

    /// The value with the given handle.
    pub fn get(&self, handle: usize) -> (r: &T)
        requires
            self.wf(),
            handle < self@.len(),
        ensures
            *r == self@[handle as int],
    {
        proof {
            lemma_chunk_of(handle as int, self.chunks@.len() as int);
        }
        &self.chunks[handle / CHUNK_SIZE].values[handle % CHUNK_SIZE]
    }
}

/// A handle finds the value it was returned for, and adding a value leaves
/// every earlier value where it was.
pub proof fn lemma_handles_stable<T>(before: Seq<T>, value: T)
    ensures
        before.push(value)[before.len() as int] == value,
        forall|h: int| 0 <= h < before.len() ==> #[trigger] before.push(value)[h] == before[h],
{
}

/// `c * CHUNK_SIZE + o` lies in chunk `c` at `o`.
proof fn lemma_div_mod_chunk(c: int, o: int)
    requires
        0 <= c,
        0 <= o < CHUNK_SIZE,
    ensures
        (c * CHUNK_SIZE + o) / (CHUNK_SIZE as int) == c,
        (c * CHUNK_SIZE + o) % (CHUNK_SIZE as int) == o,
{
    vstd::arithmetic::div_mod::lemma_fundamental_div_mod_converse(
        c * CHUNK_SIZE + o,
        CHUNK_SIZE as int,
        c,
        o,
    );
}

/// A value below `n` full chunks' worth lies in one of the first `n` chunks.
proof fn lemma_chunk_of(i: int, n: int)
    requires
        0 <= i,
        i < n * CHUNK_SIZE,
    ensures
        0 <= i / (CHUNK_SIZE as int) < n,
        0 <= i % (CHUNK_SIZE as int) < CHUNK_SIZE,
{
    vstd::arithmetic::div_mod::lemma_fundamental_div_mod(i, CHUNK_SIZE as int);
    assert(i / (CHUNK_SIZE as int) < n) by (nonlinear_arith)
        requires
            i == CHUNK_SIZE * (i / (CHUNK_SIZE as int)) + i % (CHUNK_SIZE as int),
            0 <= i % (CHUNK_SIZE as int),
            i < n * CHUNK_SIZE,
    ;
}

} // verus!
