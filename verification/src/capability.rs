//! The index-producing side of a traversal: a contract for generators of
//! pairwise-distinct buffer positions, and two implementations of it.

use vstd::prelude::*;

verus! {

/// A generator of indices into a buffer of `V` elements.
///
/// An implementer promises, through the contract of `next_mapped`, that it
/// never produces the same index twice over its whole lifetime, that every
/// produced index lies inside the buffer it was handed, and that once it
/// signals exhaustion it stays exhausted. These promises are what lets a
/// driver hand out element access for each produced index without ever
/// reaching the same element twice.
///
/// The spec functions make each implementation's behaviour a function of its
/// state and the buffer's length: `can_advance` says whether a call produces
/// an index, `next_index` which one, and `advanced` and `halted` give the
/// state the call leaves behind.
pub trait NonOverlappingMapIterator<V>: Sized {
    /// The implementation's internal well-formedness condition, established
    /// by its constructor and preserved by every call.
    spec fn wf(&self) -> bool;

    /// The indices produced so far, oldest first.
    spec fn produced(&self) -> Seq<int>;

    /// Whether the generator has signalled that no further index will come.
    spec fn exhausted(&self) -> bool;

    /// Whether the next call, made with a buffer of length `len`, will
    /// produce an index.
    spec fn can_advance(&self, len: nat) -> bool;

    /// The index the next call will produce, if it produces one.
    spec fn next_index(&self, len: nat) -> int;

    /// The state after a call that produced an index into a buffer of
    /// length `len`.
    spec fn advanced(&self, len: nat) -> Self;

    /// The state after a call that signalled exhaustion.
    spec fn halted(&self) -> Self;

    /// Produce the next index into `values`, or `None` once the traversal is
    /// over. The buffer is passed on every call so that an implementation
    /// can bound its answers by the buffer's length; none of the provided
    /// implementations reads the buffer's elements.
    fn next_mapped(&mut self, values: &Vec<V>) -> (r: Option<usize>)
        requires
            old(self).wf(),
        ensures
            final(self).wf(),
            match r {
                Some(i) => {
                    &&& !old(self).exhausted()
                    &&& i as int == old(self).next_index(values@.len() as nat)
                    &&& (i as int) < values@.len()
                    &&& !old(self).produced().contains(i as int)
                    &&& final(self).produced() == old(self).produced().push(i as int)
                    &&& *final(self) == old(self).advanced(values@.len() as nat)
                },
                None => {
                    &&& final(self).exhausted()
                    &&& final(self).produced() == old(self).produced()
                    &&& *final(self) == old(self).halted()
                },
            },
            r is Some <==> old(self).can_advance(values@.len() as nat),
            old(self).exhausted() ==> r is None,
    ;
}

/// The reference capability: a strictly ascending counter over the range
/// from `cur` up to but not including `end`. It also stops at the end of
/// whatever buffer it is handed, so the indices it produces are always in
/// bounds.
pub struct AscendingRange {
    /// The next index to hand out.
    pub cur: usize,
    /// The exclusive upper bound.
    pub end: usize,
    /// Set once the counter has signalled exhaustion; never cleared.
    pub done: bool,
    /// The lower bound the counter started from, kept to state which
    /// indices have been handed out.
    pub first: Ghost<int>,
}

impl AscendingRange {
    pub open spec fn valid(&self) -> bool {
        self.first@ <= self.cur as int
    }

    /// The indices handed out so far: `first, first + 1, ..., cur - 1`.
    pub open spec fn yielded(&self) -> Seq<int> {
        Seq::new((self.cur - self.first@) as nat, |k: int| self.first@ + k)
    }

    pub fn new(lo: usize, hi: usize) -> (r: Self)
        ensures
            r == (AscendingRange { cur: lo, end: hi, done: false, first: Ghost(lo as int) }),
            r.valid(),
            r.yielded() == Seq::<int>::empty(),
    {
        let r = AscendingRange { cur: lo, end: hi, done: false, first: Ghost(lo as int) };
        proof {
            assert(r.yielded() =~= Seq::<int>::empty());
        }
        r
    }
}

impl<V> NonOverlappingMapIterator<V> for AscendingRange {
    open spec fn wf(&self) -> bool {
        self.valid()
    }

    open spec fn produced(&self) -> Seq<int> {
        self.yielded()
    }

    open spec fn exhausted(&self) -> bool {
        self.done || self.cur >= self.end
    }

    open spec fn can_advance(&self, len: nat) -> bool {
        !self.done && (self.cur as int) < self.end as int && (self.cur as int) < len
    }

    open spec fn next_index(&self, len: nat) -> int {
        self.cur as int
    }

    open spec fn advanced(&self, len: nat) -> Self {
        AscendingRange {
            cur: (self.cur + 1) as usize,
            end: self.end,
            done: self.done,
            first: self.first,
        }
    }

    open spec fn halted(&self) -> Self {
        AscendingRange { cur: self.cur, end: self.end, done: true, first: self.first }
    }

    fn next_mapped(&mut self, values: &Vec<V>) -> (r: Option<usize>) {
        if self.done || self.cur >= self.end || self.cur >= values.len() {
            self.done = true;
            None
        } else {
            let i = self.cur;
            self.cur = i + 1;
            proof {
                assert(forall|k: int|
                    0 <= k < old(self).yielded().len()
                        ==> #[trigger] old(self).yielded()[k] < i as int);
                assert(self.yielded() =~= old(self).yielded().push(i as int));
            }
            Some(i)
        }
    }
}

/// A capability that replays a caller-supplied list of pairwise distinct
/// indices in the order given, demonstrating traversal orders other than
/// ascending. A listed index at or past the end of the buffer it is handed
/// stops the traversal for good instead of being produced.
pub struct FixedOrder {
    /// The full list of indices to replay.
    pub order: Vec<usize>,
    /// How many entries of the list have been handed out.
    pub pos: usize,
    /// Set once the capability has signalled exhaustion; never cleared.
    pub done: bool,
}

impl FixedOrder {
    pub open spec fn valid(&self) -> bool {
        &&& self.order@.no_duplicates()
        &&& self.pos as int <= self.order@.len()
    }

    /// The indices handed out so far: the first `pos` list entries.
    pub open spec fn yielded(&self) -> Seq<int> {
        Seq::new(self.pos as nat, |k: int| self.order@[k] as int)
    }

    /// Accept the list only when its entries are pairwise distinct: a list
    /// with a repeated entry could not honour the non-repetition contract.
    pub fn new(order: Vec<usize>) -> (r: Option<Self>)
        ensures
            match r {
                Some(c) => {
                    &&& order@.no_duplicates()
                    &&& c == (FixedOrder { order, pos: 0, done: false })
                    &&& c.valid()
                    &&& c.yielded() == Seq::<int>::empty()
                },
                None => !order@.no_duplicates(),
            },
    {
        let n = order.len();
        let mut i: usize = 0;
        while i < n
            invariant
                i <= n,
                n == order@.len(),
                forall|a: int, b: int|
                    0 <= a < b < order@.len() && a < i ==> order@[a] != order@[b],
            decreases n - i,
        {
            let mut j: usize = i + 1;
            while j < n
                invariant
                    i < j <= n,
                    n == order@.len(),
                    forall|b: int| i < b < j ==> order@[i as int] != order@[b],
                decreases n - j,
            {
                if order[i] == order[j] {
                    return None;
                }
                j = j + 1;
            }
            i = i + 1;
        }
        let r = FixedOrder { order, pos: 0, done: false };
        proof {
            assert(r.yielded() =~= Seq::<int>::empty());
        }
        Some(r)
    }
}

impl<V> NonOverlappingMapIterator<V> for FixedOrder {
    open spec fn wf(&self) -> bool {
        self.valid()
    }

    open spec fn produced(&self) -> Seq<int> {
        self.yielded()
    }

    open spec fn exhausted(&self) -> bool {
        self.done || self.pos as int >= self.order@.len()
    }

    open spec fn can_advance(&self, len: nat) -> bool {
        &&& !self.done
        &&& (self.pos as int) < self.order@.len()
        &&& (self.order@[self.pos as int] as int) < len
    }

    open spec fn next_index(&self, len: nat) -> int {
        self.order@[self.pos as int] as int
    }

    open spec fn advanced(&self, len: nat) -> Self {
        FixedOrder { order: self.order, pos: (self.pos + 1) as usize, done: self.done }
    }

    open spec fn halted(&self) -> Self {
        FixedOrder { order: self.order, pos: self.pos, done: true }
    }

    fn next_mapped(&mut self, values: &Vec<V>) -> (r: Option<usize>) {
        if self.done || self.pos >= self.order.len() {
            self.done = true;
            None
        } else {
            let i = self.order[self.pos];
            if i >= values.len() {
                self.done = true;
                None
            } else {
                self.pos = self.pos + 1;
                proof {
                    assert(forall|k: int|
                        0 <= k < old(self).pos as int ==> #[trigger] old(self).order@[k] != old(
                            self,
                        ).order@[old(self).pos as int]);
                    assert(self.yielded() =~= old(self).yielded().push(i as int));
                }
                Some(i)
            }
        }
    }
}

/// Law: the indices produced by an ascending range capability are exactly
/// its lower bound, then each successor in turn, one per step — no repeats
/// and no gaps. A range over `[0, n)` that has run its full course has
/// therefore produced exactly `0, 1, ..., n - 1`.
pub proof fn lemma_ascending_uniqueness(c: AscendingRange)
    requires
        c.valid(),
    ensures
        c.yielded().len() == c.cur - c.first@,
        forall|k: int| 0 <= k < c.yielded().len() ==> #[trigger] c.yielded()[k] == c.first@ + k,
        c.yielded().no_duplicates(),
{
}

} // verus!
