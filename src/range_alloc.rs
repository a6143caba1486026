use std::collections::BTreeMap;
use vstd::prelude::*;
use vstd::std_specs::iter::IteratorSpec;

verus! {

/// Whether the locked entry `[k, v)` stands in the way of locking
/// `[start, end)`: it starts at the same place, or the two half-open ranges
/// share a byte.
pub open spec fn entry_clashes(k: usize, v: usize, start: usize, end: usize) -> bool {
    k == start || (k < end && start < v)
}

/// Whether some locked entry stands in the way of locking `[start, end)`.
pub open spec fn conflicts(locked: Map<usize, usize>, start: usize, end: usize) -> bool {
    exists|k: usize| #[trigger] locked.contains_key(k) && entry_clashes(k, locked[k], start, end)
}

/// The locked entries, keyed by start and holding the end, lie inside
/// `[0, size)` and follow one another without overlap.
pub open spec fn well_placed(locked: Map<usize, usize>, size: usize) -> bool {
    &&& forall|k: usize| #[trigger] locked.contains_key(k) ==> k <= locked[k] <= size
    &&& forall|a: usize, b: usize|
        #![trigger locked.contains_key(a), locked.contains_key(b)]
        locked.contains_key(a) && locked.contains_key(b) && a < b ==> locked[a] <= b
}

/// Outcome of a lock attempt that found the range taken.
#[derive(Clone, Copy, Debug, PartialEq, Eq, Structural)]
pub struct Busy;

/// Tracks which byte ranges of one buffer are currently locked.
pub struct RangeAllocator {
    total_size: usize,
    locked: BTreeMap<usize, usize>,
}

impl RangeAllocator {
    /// Number of bytes the allocator covers.
    pub closed spec fn size(&self) -> usize {
        self.total_size
    }

    /// Locked ranges: start mapped to (exclusive) end.
    pub closed spec fn locked(&self) -> Map<usize, usize> {
        self.locked@
    }

    pub open spec fn wf(&self) -> bool {
        well_placed(self.locked(), self.size())
    }

    /// An allocator over `size` bytes with nothing locked.
    pub fn new(size: usize) -> (r: RangeAllocator)
        ensures
            r.wf(),
            r.size() == size,
            r.locked() == Map::<usize, usize>::empty(),
    {
        RangeAllocator { total_size: size, locked: BTreeMap::new() }
    }

    /// Number of bytes the allocator covers.
    pub fn total_size(&self) -> (r: usize)
        ensures
            r == self.size(),
    {
        self.total_size
    }

    /// Whether `[start, end)` is locked as one entry.
    pub fn holds(&self, start: usize, end: usize) -> (r: bool)
        ensures
            r == (self.locked().contains_key(start) && self.locked()[start] == end),
    {
        match self.locked.get(&start) {
            Some(v) => *v == end,
            None => false,
        }
    }

    /// Number of locked ranges.
    pub fn num_locked(&self) -> (r: usize)
        ensures
            r == self.locked().len(),
    {
        self.locked.len()
    }

    /// Locks `[start, end)` unless a locked range starts at `start` or
    /// overlaps it; ranges that only touch may coexist.
    pub fn try_acquire(&mut self, start: usize, end: usize) -> (r: Result<(), Busy>)
        requires
            old(self).wf(),
            start <= end,
            end <= old(self).size(),
        ensures
            final(self).wf(),
            final(self).size() == old(self).size(),
            r is Ok <==> !conflicts(old(self).locked(), start, end),
            r is Ok ==> final(self).locked() == old(self).locked().insert(start, end),
            r is Err ==> final(self).locked() == old(self).locked(),
    {
        if self.locked.is_empty() {
            self.locked.insert(start, end);
            return Ok(());
        }
        if self.locked.contains_key(&start) {
            return Err(Busy);
        }
        let ghost m = self.locked@;
        let entries = self.locked.iter();
        let ghost seen = entries.remaining();
        assert(forall|j: int|
            0 <= j < seen.len() ==> #[trigger] m.contains_key(*seen[j].0) && m[*seen[j].0]
                == *seen[j].1);
        assert(forall|k: usize| #[trigger] m.contains_key(k) ==> seen.contains((&k, &m[k])));
        let mut busy = false;
        for entry in it: entries
            invariant
                self.locked@ == m,
                !m.contains_key(start),
                it.seq() == seen,
                forall|j: int|
                    0 <= j < seen.len() ==> #[trigger] m.contains_key(*seen[j].0) && m[*seen[j].0]
                        == *seen[j].1,
                busy ==> conflicts(m, start, end),
                !busy ==> forall|j: int|
                    0 <= j < it.index() ==> !entry_clashes(
                        *seen[j].0,
                        *seen[j].1,
                        start,
                        end,
                    ),
        {
            let (k, v) = entry;
            assert(*k == *seen[it.index() as int].0 && *v == *seen[it.index() as int].1);
            assert(m.contains_key(*k) && m[*k] == *v);
            if *k < end && start < *v {
                busy = true;
            }
        }
        if busy {
            return Err(Busy);
        }
        self.locked.insert(start, end);
        Ok(())
    }

    /// Unlocks the range `[start, end)`, which must be locked as one entry.
    pub fn release(&mut self, start: usize, end: usize)
        requires
            old(self).wf(),
            old(self).locked().contains_key(start),
            old(self).locked()[start] == end,
        ensures
            final(self).wf(),
            final(self).size() == old(self).size(),
            final(self).locked() == old(self).locked().remove(start),
    {
        self.locked.remove(&start);
    }
}

/// At every point the locked ranges of an allocator are pairwise disjoint:
/// of two distinct entries, one ends before the other starts.
pub proof fn lemma_locked_disjoint(a: &RangeAllocator, s1: usize, s2: usize)
    requires
        a.wf(),
        a.locked().contains_key(s1),
        a.locked().contains_key(s2),
        s1 != s2,
    ensures
        a.locked()[s1] <= s2 || a.locked()[s2] <= s1,
        !entry_clashes(s1, a.locked()[s1], s2, a.locked()[s2]),
{
}

/// Locking a free range and unlocking it again leaves the locked ranges as
/// they were, and afterwards the range is no longer an entry, so it cannot
/// be unlocked a second time.
pub proof fn lemma_acquire_release_round_trip(m0: Map<usize, usize>, start: usize, end: usize)
    requires
        !conflicts(m0, start, end),
    ensures
        m0.insert(start, end).remove(start) == m0,
        !m0.insert(start, end).remove(start).contains_key(start),
{
    if m0.contains_key(start) {
        assert(entry_clashes(start, m0[start], start, end));
    }
    assert(m0.insert(start, end).remove(start) =~= m0);
}

} // verus!
