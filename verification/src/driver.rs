//! The driver that owns a buffer for the lifetime of one traversal and turns
//! the indices produced by an index capability into access to its elements.

use vstd::prelude::*;
use crate::capability::NonOverlappingMapIterator;

verus! {

/// Pairs a buffer with an index capability and presents the two as a lazy
/// sequence of element positions, each resolvable into a mutable reference.
///
/// The driver holds the buffer exclusively for its whole lifetime: elements
/// can be reached only through indices the capability has produced, and the
/// capability's contract guarantees those never repeat, so no two handles
/// given out during one traversal ever denote the same storage.
pub struct NonOverlappingMapIteratorDriver<V, I> {
    values: Vec<V>,
    inner_iter: I,
    issued: Ghost<Seq<int>>,
    start_produced: Ghost<Seq<int>>,
}

impl<V, I: NonOverlappingMapIterator<V>> NonOverlappingMapIteratorDriver<V, I> {
    /// The buffer as it currently stands.
    pub closed spec fn buffer(&self) -> Seq<V> {
        self.values@
    }

    /// The indices issued to the consumer so far, oldest first.
    pub closed spec fn issued(&self) -> Seq<int> {
        self.issued@
    }

    /// The capability driving the traversal.
    pub closed spec fn capability(&self) -> I {
        self.inner_iter
    }

    /// What the capability had already produced when the driver took it.
    pub closed spec fn start_produced(&self) -> Seq<int> {
        self.start_produced@
    }

    pub open spec fn wf(&self) -> bool {
        &&& self.capability().wf()
        &&& self.capability().produced() == self.start_produced() + self.issued()
        &&& self.issued().no_duplicates()
        &&& forall|k: int|
            0 <= k < self.issued().len() ==> 0 <= #[trigger] self.issued()[k]
                < self.buffer().len()
    }

    /// Begin a traversal: take the buffer and the capability over. The
    /// buffer is given back, with every write made through `elem_mut`
    /// applied, by `finish`.
    pub fn map_values(values: Vec<V>, inner_iter: I) -> (r: Self)
        requires
            inner_iter.wf(),
        ensures
            r.wf(),
            r.buffer() == values@,
            r.issued() == Seq::<int>::empty(),
            r.capability() == inner_iter,
            r.start_produced() == inner_iter.produced(),
    {
        let ghost sp = inner_iter.produced();
        let r = NonOverlappingMapIteratorDriver {
            values,
            inner_iter,
            issued: Ghost(Seq::empty()),
            start_produced: Ghost(sp),
        };
        proof {
            assert(r.capability().produced() =~= r.start_produced() + r.issued());
        }
        r
    }

    /// Advance the traversal: ask the capability for its next index. A
    /// returned index is within the buffer and was never issued before;
    /// `None` means the capability is exhausted, and an exhausted capability
    /// answers every later call with `None` as well.
    pub fn next(&mut self) -> (r: Option<usize>)
        requires
            old(self).wf(),
        ensures
            final(self).wf(),
            final(self).buffer() == old(self).buffer(),
            final(self).start_produced() == old(self).start_produced(),
            match r {
                Some(i) => {
                    &&& !old(self).capability().exhausted()
                    &&& i as int == old(self).capability().next_index(
                        old(self).buffer().len() as nat,
                    )
                    &&& (i as int) < old(self).buffer().len()
                    &&& !old(self).issued().contains(i as int)
                    &&& final(self).issued() == old(self).issued().push(i as int)
                    &&& final(self).capability() == old(self).capability().advanced(
                        old(self).buffer().len() as nat,
                    )
                },
                None => {
                    &&& final(self).capability().exhausted()
                    &&& final(self).issued() == old(self).issued()
                    &&& final(self).capability() == old(self).capability().halted()
                },
            },
            r is Some <==> old(self).capability().can_advance(old(self).buffer().len() as nat),
            old(self).capability().exhausted() ==> r is None,
    {
        let r = self.inner_iter.next_mapped(&self.values);
        proof {
            if let Some(i) = r {
                let s0 = old(self).issued@;
                assert(!s0.contains(i as int)) by {
                    if s0.contains(i as int) {
                        let k = choose|k: int| 0 <= k < s0.len() && s0[k] == i as int;
                        assert((old(self).start_produced@ + s0)[old(self).start_produced@.len()
                            + k] == i as int);
                        assert(old(self).capability().produced().contains(i as int));
                    }
                }
                self.issued@ = s0.push(i as int);
                assert(self.capability().produced() =~= self.start_produced() + self.issued());
                assert forall|a: int, b: int|
                    0 <= a < b < self.issued@.len() implies self.issued@[a] != self.issued@[b] by {
                    if b == s0.len() {
                        assert(s0.contains(s0[a]));
                    }
                }
            }
        }
        r
    }

    /// Resolve an issued index into a mutable reference to its element: the
    /// write-through handle of the traversal. A value written through the
    /// handle stands in the buffer from then on.
    pub fn elem_mut(&mut self, i: usize) -> (r: &mut V)
        requires
            old(self).wf(),
            old(self).issued().contains(i as int),
        ensures
            *r == old(self).buffer()[i as int],
            final(self).buffer() == old(self).buffer().update(i as int, *final(r)),
            final(self).issued() == old(self).issued(),
            final(self).capability() == old(self).capability(),
            final(self).start_produced() == old(self).start_produced(),
            final(self).wf(),
    {
        proof {
            let k = choose|k: int|
                0 <= k < old(self).issued@.len() && old(self).issued@[k] == i as int;
            assert(0 <= old(self).issued@[k] < old(self).buffer().len());
        }
        &mut self.values[i]
    }

    /// Read the element at an issued index.
    pub fn elem(&self, i: usize) -> (r: &V)
        requires
            self.wf(),
            self.issued().contains(i as int),
        ensures
            *r == self.buffer()[i as int],
    {
        proof {
            let k = choose|k: int| 0 <= k < self.issued@.len() && self.issued@[k] == i as int;
            assert(0 <= self.issued@[k] < self.buffer().len());
        }
        &self.values[i]
    }

    /// End the traversal and hand the buffer back. Every write made through
    /// `elem_mut` is visible in the returned vector: the driver buffers
    /// nothing.
    pub fn finish(self) -> (r: Vec<V>)
        ensures
            r@ == self.buffer(),
    {
        self.values
    }
}

/// Law: aliasing freedom. In a well-formed traversal any two distinct pulls
/// resolved distinct positions, and every issued position lies inside the
/// buffer, so no two element handles given out by one driver ever denote the
/// same storage location.
pub proof fn lemma_aliasing_freedom<V, I: NonOverlappingMapIterator<V>>(
    d: &NonOverlappingMapIteratorDriver<V, I>,
)
    requires
        d.wf(),
    ensures
        forall|a: int, b: int|
            0 <= a < b < d.issued().len() ==> d.issued()[a] != d.issued()[b],
        forall|k: int|
            0 <= k < d.issued().len() ==> 0 <= #[trigger] d.issued()[k] < d.buffer().len(),
{
}

} // verus!
