use crate::range_alloc::{conflicts, entry_clashes, RangeAllocator};
use std::ops::Range;
use vstd::arithmetic::div_mod::{lemma_div_by_multiple, lemma_hoist_over_denominator};
use vstd::prelude::*;

verus! {

/// Number of handle slots that still hold a handle.
pub open spec fn live_count(slots: Seq<Option<usize>>) -> nat
    decreases slots.len(),
{
    if slots.len() == 0 {
        0
    } else {
        live_count(slots.drop_last()) + if slots.last() is Some {
            1nat
        } else {
            0nat
        }
    }
}

proof fn lemma_live_push(slots: Seq<Option<usize>>, x: Option<usize>)
    ensures
        live_count(slots.push(x)) == live_count(slots) + if x is Some {
            1nat
        } else {
            0nat
        },
{
    assert(slots.push(x).drop_last() =~= slots);
}

proof fn lemma_live_clear(slots: Seq<Option<usize>>, i: int)
    requires
        0 <= i < slots.len(),
    ensures
        live_count(slots.update(i, None)) + (if slots[i] is Some {
            1nat
        } else {
            0nat
        }) == live_count(slots),
    decreases slots.len(),
{
    if i == slots.len() - 1 {
        assert(slots.update(i, None).drop_last() =~= slots.drop_last());
    } else {
        lemma_live_clear(slots.drop_last(), i);
        assert(slots.update(i, None).drop_last() =~= slots.drop_last().update(i, None));
    }
}

proof fn lemma_live_none(slots: Seq<Option<usize>>)
    requires
        forall|j: int| 0 <= j < slots.len() ==> slots[j] is None,
    ensures
        live_count(slots) == 0,
    decreases slots.len(),
{
    if slots.len() > 0 {
        lemma_live_none(slots.drop_last());
    }
}

proof fn lemma_live_some(slots: Seq<Option<usize>>, i: int)
    requires
        0 <= i < slots.len(),
        slots[i] is Some,
    ensures
        live_count(slots) >= 1,
{
    lemma_live_clear(slots, i);
}

/// One range of the registration: where it lies, and the node whose
/// allocator it is locked against. Clones of a handle share their node; the
/// lock itself belongs to the handle that took it.
#[derive(Clone, Copy)]
struct RangeNode {
    offset: usize,
    len: usize,
    parent: Option<usize>,
}

/// What a lock attempt of a handle's range came to.
#[derive(Clone, Copy, Debug, PartialEq, Eq, Structural)]
pub enum AllocStep {
    /// This handle already holds its range.
    Held,
    /// The range has just been locked for this handle.
    Acquired,
    /// A clashing range is locked, by another handle: yield and try again.
    Busy,
}

/// One end of an element range handed to `sub_buffer`.
#[derive(Clone, Copy, Debug, PartialEq, Eq, Structural)]
pub enum ElemBound {
    Included(usize),
    Excluded(usize),
    Unbounded,
}

/// A range of elements, given by its two ends.
#[derive(Clone, Copy, Debug, PartialEq, Eq, Structural)]
pub struct ElemRange {
    pub start: ElemBound,
    pub end: ElemBound,
}

/// First element a range's start bound takes in.
pub open spec fn first_elem(b: ElemBound) -> int {
    match b {
        ElemBound::Included(i) => i as int,
        ElemBound::Excluded(i) => i + 1,
        ElemBound::Unbounded => 0,
    }
}

/// Element just past what a range's end bound takes in, for a handle of
/// `len` elements.
pub open spec fn end_elem(b: ElemBound, len: int) -> int {
    match b {
        ElemBound::Included(j) => j + 1,
        ElemBound::Excluded(j) => j as int,
        ElemBound::Unbounded => len,
    }
}

impl From<Range<usize>> for ElemRange {
    fn from(r: Range<usize>) -> (e: ElemRange)
        ensures
            e == (ElemRange { start: ElemBound::Included(r.start), end: ElemBound::Excluded(r.end) }),
    {
        ElemRange { start: ElemBound::Included(r.start), end: ElemBound::Excluded(r.end) }
    }
}

impl vstd::std_specs::convert::FromSpecImpl<Range<usize>> for ElemRange {
    open spec fn obeys_from_spec() -> bool {
        true
    }

    open spec fn from_spec(r: Range<usize>) -> ElemRange {
        ElemRange { start: ElemBound::Included(r.start), end: ElemBound::Excluded(r.end) }
    }
}

/// The state shared by every handle that stems from one registration of a
/// buffer: the reference count, the derived ranges with their allocators,
/// and for each handle whether it is live and whether it holds its range.
pub struct Registration {
    elem_size: usize,
    nodes: Vec<RangeNode>,
    allocs: Vec<RangeAllocator>,
    slots: Vec<Option<usize>>,
    held: Vec<bool>,
    refcount: usize,
}

/// A handle to a range of a registered buffer. Offsets and lengths are kept
/// in bytes, relative to the start of the top-level registration.
pub struct RegisteredBuffer {
    slot: usize,
    node: usize,
    offset: usize,
    len: usize,
    elem_size: usize,
}

impl RegisteredBuffer {
    #[verifier::type_invariant]
    spec fn inv(&self) -> bool {
        self.elem_size > 0
    }

    pub closed spec fn slot(&self) -> usize {
        self.slot
    }

    pub closed spec fn node(&self) -> usize {
        self.node
    }

    /// Start of the range in bytes.
    pub closed spec fn byte_offset(&self) -> usize {
        self.offset
    }

    /// Length of the range in bytes.
    pub closed spec fn byte_len(&self) -> usize {
        self.len
    }

    /// Size in bytes of one element of the registered data.
    pub closed spec fn elem(&self) -> usize {
        self.elem_size
    }

    /// Offset, in elements, into the top-level registered buffer at which
    /// this handle starts.
    pub fn offset(&self) -> (r: usize)
        ensures
            r == self.byte_offset() / self.elem(),
    {
        proof {
            use_type_invariant(self);
        }
        self.offset / self.elem_size
    }

    /// Length of this handle's range, in elements.
    pub fn len(&self) -> (r: usize)
        ensures
            r == self.byte_len() / self.elem(),
    {
        proof {
            use_type_invariant(self);
        }
        self.len / self.elem_size
    }

    /// Size in bytes of one element of the registered data.
    pub fn elem_size(&self) -> (r: usize)
        ensures
            r == self.elem(),
            r > 0,
    {
        proof {
            use_type_invariant(self);
        }
        self.elem_size
    }

    /// Start of the range in bytes.
    pub fn u8_offset(&self) -> (r: usize)
        ensures
            r == self.byte_offset(),
    {
        self.offset
    }

    /// Length of the range in bytes.
    pub fn u8_len(&self) -> (r: usize)
        ensures
            r == self.byte_len(),
    {
        self.len
    }
}

impl Registration {
    pub closed spec fn elem(&self) -> usize {
        self.elem_size
    }

    /// Number of live handles, as the shared reference count holds it.
    pub closed spec fn refs(&self) -> nat {
        self.refcount as nat
    }

    /// Number of slots that still hold a handle.
    pub closed spec fn live(&self) -> nat {
        live_count(self.slots@)
    }

    pub closed spec fn num_slots(&self) -> nat {
        self.slots@.len()
    }

    /// Whether handle slot `s` holds a live handle.
    pub closed spec fn is_live(&self, s: int) -> bool {
        0 <= s < self.slots@.len() && self.slots@[s] is Some
    }

    /// Whether the handle in slot `s` holds its range locked.
    pub closed spec fn is_held(&self, s: int) -> bool {
        0 <= s < self.held@.len() && self.held@[s]
    }

    /// Node of the handle in slot `s`.
    pub closed spec fn slot_node(&self, s: int) -> usize {
        self.slots@[s].unwrap()
    }

    pub closed spec fn num_nodes(&self) -> nat {
        self.nodes@.len()
    }

    pub closed spec fn node_offset(&self, n: int) -> usize {
        self.nodes@[n].offset
    }

    pub closed spec fn node_len(&self, n: int) -> usize {
        self.nodes@[n].len
    }

    pub closed spec fn node_parent(&self, n: int) -> Option<usize> {
        self.nodes@[n].parent
    }

    /// The node whose allocator the range of node `n` is locked against:
    /// its parent, or itself for the top-level range.
    pub open spec fn eff(&self, n: int) -> int {
        match self.node_parent(n) {
            Some(p) => p as int,
            None => n,
        }
    }

    /// Locked ranges of the allocator that node `a` owns.
    pub closed spec fn locked(&self, a: int) -> Map<usize, usize> {
        self.allocs@[a].locked()
    }

    /// Size of the allocator that node `a` owns.
    pub closed spec fn alloc_size(&self, a: int) -> usize {
        self.allocs@[a].size()
    }

    /// Whether handle `h` is a live handle of this registration.
    pub open spec fn holds(&self, h: &RegisteredBuffer) -> bool {
        &&& h.slot() < self.num_slots()
        &&& self.is_live(h.slot() as int)
        &&& self.slot_node(h.slot() as int) == h.node()
        &&& h.node() < self.num_nodes()
        &&& h.byte_offset() == self.node_offset(h.node() as int)
        &&& h.byte_len() == self.node_len(h.node() as int)
        &&& h.elem() == self.elem()
    }

    pub closed spec fn wf(&self) -> bool {
        &&& self.elem_size > 0
        &&& nodes_ok(self.nodes@, self.allocs@)
        &&& slots_ok(self.nodes@, self.slots@, self.held@)
        &&& self.refcount == live_count(self.slots@)
        &&& locks_ok(self.nodes@, self.allocs@, self.slots@, self.held@)
    }
}

spec fn eff_of(nodes: Seq<RangeNode>, n: int) -> int {
    match nodes[n].parent {
        Some(p) => p as int,
        None => n,
    }
}

/// Node of slot `s`, as an integer.
spec fn sn(slots: Seq<Option<usize>>, s: int) -> int {
    slots[s].unwrap() as int
}

/// Slot `s` holds the entry `k` of the allocator of node `a`.
spec fn slot_owns(
    nodes: Seq<RangeNode>,
    slots: Seq<Option<usize>>,
    held: Seq<bool>,
    s: int,
    a: int,
    k: usize,
) -> bool {
    &&& 0 <= s < held.len()
    &&& held[s]
    &&& eff_of(nodes, sn(slots, s)) == a
    &&& nodes[sn(slots, s)].offset == k
}

spec fn nodes_ok(nodes: Seq<RangeNode>, allocs: Seq<RangeAllocator>) -> bool {
    &&& nodes.len() == allocs.len()
    &&& forall|n: int|
        0 <= n < nodes.len() ==> {
            &&& (#[trigger] nodes[n]).offset + nodes[n].len <= usize::MAX
            &&& (nodes[n].parent matches Some(p) ==> p < n)
        }
    &&& forall|n: int|
        0 <= n < allocs.len() ==> {
            &&& (#[trigger] allocs[n]).wf()
            &&& allocs[n].size() == nodes[n].len
        }
}

spec fn slots_ok(nodes: Seq<RangeNode>, slots: Seq<Option<usize>>, held: Seq<bool>) -> bool {
    &&& held.len() == slots.len()
    &&& forall|s: int|
        0 <= s < slots.len() && (#[trigger] slots[s]) is Some ==> slots[s].unwrap() < nodes.len()
    &&& forall|s: int| 0 <= s < held.len() && #[trigger] held[s] ==> slots[s] is Some
}

spec fn locks_ok(
    nodes: Seq<RangeNode>,
    allocs: Seq<RangeAllocator>,
    slots: Seq<Option<usize>>,
    held: Seq<bool>,
) -> bool {
    // a held range is an entry of the allocator it was locked against
    &&& forall|s: int|
        0 <= s < held.len() && #[trigger] held[s] ==> {
            let n = sn(slots, s);
            &&& allocs[eff_of(nodes, n)].locked().contains_key(nodes[n].offset)
            &&& allocs[eff_of(nodes, n)].locked()[nodes[n].offset] == nodes[n].offset
                + nodes[n].len
        }
    // no two holders locked against one allocator share a start
    &&& forall|s: int, t: int|
        #![trigger held[s], held[t]]
        0 <= s < held.len() && 0 <= t < held.len() && s != t && held[s] && held[t] && eff_of(
            nodes,
            sn(slots, s),
        ) == eff_of(nodes, sn(slots, t)) ==> nodes[sn(slots, s)].offset != nodes[sn(
            slots,
            t,
        )].offset
    // every entry belongs to a holder
    &&& forall|a: int, k: usize|
        0 <= a < allocs.len() && #[trigger] allocs[a].locked().contains_key(k) ==> exists|s: int|
            #[trigger] slot_owns(nodes, slots, held, s, a, k)
}

/// Pushing nodes with empty allocators, and slots that hold nothing, keeps
/// the lock bookkeeping.
proof fn lemma_locks_grow(
    nodes: Seq<RangeNode>,
    allocs: Seq<RangeAllocator>,
    slots: Seq<Option<usize>>,
    held: Seq<bool>,
    nodes2: Seq<RangeNode>,
    allocs2: Seq<RangeAllocator>,
    slots2: Seq<Option<usize>>,
    held2: Seq<bool>,
)
    requires
        nodes_ok(nodes, allocs),
        slots_ok(nodes, slots, held),
        locks_ok(nodes, allocs, slots, held),
        nodes2.len() >= nodes.len(),
        allocs2.len() == nodes2.len(),
        slots2.len() >= slots.len(),
        held2.len() == slots2.len(),
        nodes2.subrange(0, nodes.len() as int) == nodes,
        allocs2.subrange(0, allocs.len() as int) == allocs,
        slots2.subrange(0, slots.len() as int) == slots,
        held2.subrange(0, held.len() as int) == held,
        forall|a: int|
            allocs.len() <= a < allocs2.len() ==> (#[trigger] allocs2[a]).locked() == Map::<
                usize,
                usize,
            >::empty(),
        forall|s: int| held.len() <= s < held2.len() ==> !#[trigger] held2[s],
    ensures
        locks_ok(nodes2, allocs2, slots2, held2),
{
    assert forall|s: int| 0 <= s < held.len() implies #[trigger] held2[s] == held[s] && slots2[s]
        == slots[s] by {
        assert(held2[s] == held2.subrange(0, held.len() as int)[s]);
        assert(slots2[s] == slots2.subrange(0, slots.len() as int)[s]);
    }
    assert forall|n: int| 0 <= n < nodes.len() implies #[trigger] nodes2[n] == nodes[n] by {
        assert(nodes2[n] == nodes2.subrange(0, nodes.len() as int)[n]);
    }
    assert forall|a: int| 0 <= a < allocs.len() implies #[trigger] allocs2[a] == allocs[a] by {
        assert(allocs2[a] == allocs2.subrange(0, allocs.len() as int)[a]);
    }
    assert forall|s: int| 0 <= s < held.len() && held[s] implies eff_of(nodes2, sn(slots2, s))
        == eff_of(nodes, sn(slots, s)) && eff_of(nodes, sn(slots, s)) < nodes.len() && nodes2[sn(
        slots2,
        s,
    )] == nodes[sn(slots, s)] by {
        assert(held2[s] == held[s]);
        assert(slots[s] is Some);
        let n = sn(slots, s);
        assert(nodes2[n] == nodes[n]);
        assert(nodes[n] == nodes[n]);
    }
    assert forall|a: int, k: usize|
        0 <= a < allocs2.len() && #[trigger] allocs2[a].locked().contains_key(k) implies exists|
        s: int,
    | #[trigger] slot_owns(nodes2, slots2, held2, s, a, k) by {
        assert(a < allocs.len());
        assert(allocs2[a] == allocs[a]);
        let s0 = choose|s: int| #[trigger] slot_owns(nodes, slots, held, s, a, k);
        assert(held2[s0] == held[s0]);
        assert(slot_owns(nodes2, slots2, held2, s0, a, k));
    }
}

/// The ranges and allocator sizes of every node of `old` are the same in `new`.
pub open spec fn ranges_kept(old: &Registration, new: &Registration) -> bool {
    &&& new.elem() == old.elem()
    &&& new.num_nodes() >= old.num_nodes()
    &&& forall|n: int|
        #![trigger new.node_offset(n)]
        #![trigger new.node_len(n)]
        #![trigger new.node_parent(n)]
        #![trigger new.alloc_size(n)]
        0 <= n < old.num_nodes() ==> {
            &&& new.node_offset(n) == old.node_offset(n)
            &&& new.node_len(n) == old.node_len(n)
            &&& new.node_parent(n) == old.node_parent(n)
            &&& new.alloc_size(n) == old.alloc_size(n)
        }
}

/// No handle of `old` changed whether it holds its range, and no allocator
/// of `old` changed its locked ranges.
pub open spec fn locks_kept(old: &Registration, new: &Registration) -> bool {
    &&& forall|s: int| 0 <= s < old.num_slots() ==> #[trigger] new.is_held(s) == old.is_held(s)
    &&& forall|a: int| 0 <= a < old.num_nodes() ==> #[trigger] new.locked(a) == old.locked(a)
}

/// As `locks_kept`, except for the handle in slot `s` and the allocator of
/// node `a`.
pub open spec fn locks_kept_except(old: &Registration, new: &Registration, s: int, a: int) -> bool {
    &&& forall|t: int|
        0 <= t < old.num_slots() && t != s ==> #[trigger] new.is_held(t) == old.is_held(t)
    &&& forall|b: int| 0 <= b < old.num_nodes() && b != a ==> #[trigger] new.locked(b) == old.locked(b)
}

/// Every handle slot of `old` but `s` is as live as before, on the same node.
pub open spec fn slots_kept_except(old: &Registration, new: &Registration, s: int) -> bool {
    &&& new.num_slots() >= old.num_slots()
    &&& forall|t: int|
        #![trigger new.is_live(t)]
        #![trigger new.slot_node(t)]
        0 <= t < old.num_slots() && t != s ==> {
            &&& new.is_live(t) == old.is_live(t)
            &&& old.is_live(t) ==> new.slot_node(t) == old.slot_node(t)
        }
}

impl Registration {
    /// Registers a buffer of `byte_len` bytes whose elements take
    /// `elem_size` bytes each, and returns the state of the registration with
    /// its top-level handle. The caller performs the runtime's registration.
    pub fn register(byte_len: usize, elem_size: usize) -> (r: (Registration, RegisteredBuffer))
        requires
            elem_size > 0,
        ensures
            r.0.wf(),
            r.0.holds(&r.1),
            r.0.refs() == 1,
            r.0.elem() == elem_size,
            r.0.num_nodes() == 1,
            r.0.num_slots() == 1,
            r.0.node_parent(0) is None,
            !r.0.is_held(0),
            r.0.alloc_size(0) == byte_len,
            r.0.locked(0) == Map::<usize, usize>::empty(),
            r.1.node() == 0,
            r.1.slot() == 0,
            r.1.byte_offset() == 0,
            r.1.byte_len() == byte_len,
    {
        let mut nodes: Vec<RangeNode> = Vec::new();
        nodes.push(RangeNode { offset: 0, len: byte_len, parent: None });
        let mut allocs: Vec<RangeAllocator> = Vec::new();
        allocs.push(RangeAllocator::new(byte_len));
        let mut slots: Vec<Option<usize>> = Vec::new();
        slots.push(Some(0));
        let mut held: Vec<bool> = Vec::new();
        held.push(false);
        proof {
            lemma_live_push(Seq::empty(), Some(0usize));
            assert(slots@ =~= Seq::<Option<usize>>::empty().push(Some(0usize)));
            assert(allocs@[0].locked() == Map::<usize, usize>::empty());
        }
        let reg = Registration { elem_size, nodes, allocs, slots, held, refcount: 1 };
        let h = RegisteredBuffer { slot: 0, node: 0, offset: 0, len: byte_len, elem_size };
        (reg, h)
    }

    /// Number of live handles, as the shared reference count holds it.
    pub fn ref_count(&self) -> (r: usize)
        ensures
            r == self.refs(),
    {
        self.refcount
    }

    /// Whether `h` is a live handle of this registration.
    pub fn holds_handle(&self, h: &RegisteredBuffer) -> (r: bool)
        requires
            self.wf(),
        ensures
            r == self.holds(h),
    {
        if h.slot >= self.slots.len() || h.node >= self.nodes.len() {
            return false;
        }
        match self.slots[h.slot] {
            Some(n) => {
                n == h.node && h.offset == self.nodes[h.node].offset && h.len
                    == self.nodes[h.node].len && h.elem_size == self.elem_size
            },
            None => false,
        }
    }

    /// Whether live handle `h` holds its range locked.
    pub fn is_locked(&self, h: &RegisteredBuffer) -> (r: bool)
        requires
            self.wf(),
            self.holds(h),
        ensures
            r == self.is_held(h.slot() as int),
    {
        self.held[h.slot]
    }

    /// Whether the range of live handle `h` lies inside the allocator it is
    /// locked against, as locking it requires.
    pub fn lock_in_bounds(&self, h: &RegisteredBuffer) -> (r: bool)
        requires
            self.wf(),
            self.holds(h),
        ensures
            r == (h.byte_offset() + h.byte_len() <= self.alloc_size(self.eff(h.node() as int))),
    {
        let e = match self.nodes[h.node].parent {
            Some(p) => p,
            None => h.node,
        };
        h.offset + h.len <= self.allocs[e].total_size()
    }
}

impl RegisteredBuffer {
    /// Another handle to the same range: the shared reference count goes up
    /// by one. The clone shares the range and its allocators, and holds no
    /// lock until it takes one itself.
    pub fn clone_handle(&self, reg: &mut Registration) -> (c: RegisteredBuffer)
        requires
            old(reg).wf(),
            old(reg).holds(self),
            old(reg).refs() < usize::MAX,
        ensures
            final(reg).wf(),
            final(reg).holds(self),
            final(reg).holds(&c),
            final(reg).refs() == old(reg).refs() + 1,
            c.slot() == old(reg).num_slots(),
            final(reg).num_slots() == old(reg).num_slots() + 1,
            !final(reg).is_held(c.slot() as int),
            c.node() == self.node(),
            c.byte_offset() == self.byte_offset(),
            c.byte_len() == self.byte_len(),
            ranges_kept(&*old(reg), &*final(reg)),
            final(reg).num_nodes() == old(reg).num_nodes(),
            locks_kept(&*old(reg), &*final(reg)),
            slots_kept_except(&*old(reg), &*final(reg), -1),
    {
        proof {
            use_type_invariant(self);
        }
        let slot = reg.slots.len();
        let ghost (nodes0, allocs0, slots0, held0) = (
            reg.nodes@,
            reg.allocs@,
            reg.slots@,
            reg.held@,
        );
        reg.slots.push(Some(self.node));
        reg.held.push(false);
        reg.refcount = reg.refcount + 1;
        proof {
            lemma_live_push(slots0, Some(self.node));
            assert(reg.slots@.subrange(0, slots0.len() as int) =~= slots0);
            assert(reg.held@.subrange(0, held0.len() as int) =~= held0);
            assert(nodes0.subrange(0, nodes0.len() as int) =~= nodes0);
            assert(allocs0.subrange(0, allocs0.len() as int) =~= allocs0);
            lemma_locks_grow(
                nodes0,
                allocs0,
                slots0,
                held0,
                nodes0,
                allocs0,
                reg.slots@,
                reg.held@,
            );
            assert(forall|s: int| 0 <= s < slots0.len() ==> #[trigger] reg.slots@[s] == slots0[s]);
            assert(forall|s: int| 0 <= s < held0.len() ==> #[trigger] reg.held@[s] == held0[s]);
        }
        RegisteredBuffer {
            slot,
            node: self.node,
            offset: self.offset,
            len: self.len,
            elem_size: self.elem_size,
        }
    }

    /// A handle to the elements `range` of this handle's range: element
    /// indices count from this handle's start, an excluded start begins one
    /// element later, an included end stops one element later, and an open
    /// end stops at this handle's end. The shared reference count goes up by
    /// one. The new range is locked against this handle's allocator and gets
    /// an allocator of its own, sized to its length in bytes; since ranges
    /// are located by offsets into the top-level buffer, a range derived from
    /// the new one can be locked only if it ends within the first that many
    /// bytes of the top-level buffer (see `Registration::lock_in_bounds`).
    pub fn sub_buffer(&self, reg: &mut Registration, range: ElemRange) -> (c: RegisteredBuffer)
        requires
            old(reg).wf(),
            old(reg).holds(self),
            old(reg).refs() < usize::MAX,
            first_elem(range.start) <= end_elem(range.end, (self.byte_len() / self.elem()) as int),
            self.byte_offset() + end_elem(range.end, (self.byte_len() / self.elem()) as int) * self.elem()
                <= usize::MAX,
        ensures
            ({
                let first = first_elem(range.start);
                let end = end_elem(range.end, (self.byte_len() / self.elem()) as int);
                &&& final(reg).wf()
                &&& final(reg).holds(self)
                &&& final(reg).holds(&c)
                &&& final(reg).refs() == old(reg).refs() + 1
                &&& c.slot() == old(reg).num_slots()
                &&& final(reg).num_slots() == old(reg).num_slots() + 1
                &&& !final(reg).is_held(c.slot() as int)
                &&& c.node() == old(reg).num_nodes()
                &&& final(reg).num_nodes() == old(reg).num_nodes() + 1
                &&& c.byte_offset() == self.byte_offset() + first * self.elem()
                &&& c.byte_len() == (end - first) * self.elem()
                &&& c.byte_offset() / c.elem() == self.byte_offset() / self.elem() + first
                &&& c.byte_len() / c.elem() == end - first
                &&& final(reg).node_parent(c.node() as int) == Some(self.node())
                &&& final(reg).alloc_size(c.node() as int) == c.byte_len()
                &&& final(reg).locked(c.node() as int) == Map::<usize, usize>::empty()
                &&& ranges_kept(&*old(reg), &*final(reg))
                &&& locks_kept(&*old(reg), &*final(reg))
                &&& slots_kept_except(&*old(reg), &*final(reg), -1)
            }),
    {
        proof {
            use_type_invariant(self);
        }
        let elem = self.elem_size;
        let ghost endg = end_elem(range.end, (self.len / elem) as int);
        proof {
            assert(endg <= endg * elem) by (nonlinear_arith)
                requires
                    endg >= 0,
                    elem >= 1,
            ;
        }
        let first: usize = match range.start {
            ElemBound::Included(i) => i,
            ElemBound::Excluded(i) => i + 1,
            ElemBound::Unbounded => 0,
        };
        let end: usize = match range.end {
            ElemBound::Included(j) => j + 1,
            ElemBound::Excluded(j) => j,
            ElemBound::Unbounded => self.len / elem,
        };
        proof {
            assert(first * elem <= end * elem) by (nonlinear_arith)
                requires
                    first <= end,
            ;
            assert((end - first) * elem == end * elem - first * elem) by (nonlinear_arith);
            lemma_hoist_over_denominator(self.offset as int, first as int, elem as nat);
            lemma_div_by_multiple((end - first) as int, elem as int);
        }
        let u8_start = first * elem;
        let u8_end = end * elem;
        let len = u8_end - u8_start;
        let offset = self.offset + u8_start;
        let node = reg.nodes.len();
        let rn = RangeNode { offset, len, parent: Some(self.node) };
        let ra = RangeAllocator::new(len);
        let ghost (nodes0, allocs0, slots0, held0) = (
            reg.nodes@,
            reg.allocs@,
            reg.slots@,
            reg.held@,
        );
        reg.nodes.push(rn);
        reg.allocs.push(ra);
        let slot = reg.slots.len();
        reg.slots.push(Some(node));
        reg.held.push(false);
        reg.refcount = reg.refcount + 1;
        proof {
            lemma_live_push(slots0, Some(node));
            assert(reg.slots@.subrange(0, slots0.len() as int) =~= slots0);
            assert(reg.held@.subrange(0, held0.len() as int) =~= held0);
            assert(reg.nodes@.subrange(0, nodes0.len() as int) =~= nodes0);
            assert(reg.allocs@.subrange(0, allocs0.len() as int) =~= allocs0);
            assert(forall|a: int|
                allocs0.len() <= a < reg.allocs@.len() ==> #[trigger] reg.allocs@[a] == ra);
            lemma_locks_grow(
                nodes0,
                allocs0,
                slots0,
                held0,
                reg.nodes@,
                reg.allocs@,
                reg.slots@,
                reg.held@,
            );
            assert(forall|n: int| 0 <= n < nodes0.len() ==> #[trigger] reg.nodes@[n] == nodes0[n]);
            assert(forall|n: int| 0 <= n < nodes0.len() ==> #[trigger] reg.allocs@[n] == allocs0[n]);
            assert(forall|s: int| 0 <= s < slots0.len() ==> #[trigger] reg.slots@[s] == slots0[s]);
            assert(forall|s: int| 0 <= s < held0.len() ==> #[trigger] reg.held@[s] == held0[s]);
        }
        RegisteredBuffer { slot, node, offset, len, elem_size: elem }
    }

    /// One attempt to lock this handle's range against the allocator of its
    /// parent (its own for a top-level handle). Nothing changes when this
    /// handle already holds its range, or when a clashing range is locked.
    pub fn try_lock(&self, reg: &mut Registration) -> (r: AllocStep)
        requires
            old(reg).wf(),
            old(reg).holds(self),
            self.byte_offset() + self.byte_len() <= old(reg).alloc_size(
                old(reg).eff(self.node() as int),
            ),
        ensures
            ({
                let e = old(reg).eff(self.node() as int);
                let end = (self.byte_offset() + self.byte_len()) as usize;
                &&& final(reg).wf()
                &&& final(reg).holds(self)
                &&& final(reg).refs() == old(reg).refs()
                &&& final(reg).num_nodes() == old(reg).num_nodes()
                &&& final(reg).num_slots() == old(reg).num_slots()
                &&& ranges_kept(&*old(reg), &*final(reg))
                &&& slots_kept_except(&*old(reg), &*final(reg), -1)
                &&& old(reg).is_held(self.slot() as int) ==> r == AllocStep::Held && locks_kept(
                    &*old(reg),
                    &*final(reg),
                )
                &&& !old(reg).is_held(self.slot() as int) ==> {
                    &&& r != AllocStep::Held
                    &&& (r == AllocStep::Acquired <==> !conflicts(
                        old(reg).locked(e),
                        self.byte_offset(),
                        end,
                    ))
                    &&& r == AllocStep::Busy ==> locks_kept(&*old(reg), &*final(reg))
                    &&& r == AllocStep::Acquired ==> {
                        &&& final(reg).is_held(self.slot() as int)
                        &&& final(reg).locked(e) == old(reg).locked(e).insert(
                            self.byte_offset(),
                            end,
                        )
                        &&& locks_kept_except(&*old(reg), &*final(reg), self.slot() as int, e)
                    }
                }
            }),
    {
        let s = self.slot;
        if reg.held[s] {
            return AllocStep::Held;
        }
        let n = self.node;
        let e = match reg.nodes[n].parent {
            Some(p) => p,
            None => n,
        };
        let end = self.offset + self.len;
        let ghost (allocs0, held0) = (reg.allocs@, reg.held@);
        let ghost nodes = reg.nodes@;
        let ghost slots = reg.slots@;
        let res = reg.allocs[e].try_acquire(self.offset, end);
        match res {
            Ok(()) => {
                reg.held.set(s, true);
                proof {
                    let allocs1 = reg.allocs@;
                    let held1 = reg.held@;
                    assert forall|t: int|
                        0 <= t < held1.len() && #[trigger] held1[t] && t != s implies {
                        let m = sn(slots, t);
                        &&& allocs1[eff_of(nodes, m)].locked().contains_key(nodes[m].offset)
                        &&& allocs1[eff_of(nodes, m)].locked()[nodes[m].offset] == nodes[m].offset
                            + nodes[m].len
                        &&& (eff_of(nodes, m) == e ==> nodes[m].offset != self.offset)
                    } by {
                        assert(held0[t]);
                        let m = sn(slots, t);
                        if eff_of(nodes, m) == e {
                            assert(allocs0[e as int].locked().contains_key(nodes[m].offset));
                        }
                    }
                    assert forall|a: int, k: usize|
                        0 <= a < allocs1.len() && #[trigger] allocs1[a].locked().contains_key(
                            k,
                        ) implies exists|t: int| #[trigger] slot_owns(nodes, slots, held1, t, a, k) by {
                        if a == e && k == self.offset {
                            assert(slot_owns(nodes, slots, held1, s as int, a, k));
                        } else {
                            assert(allocs0[a].locked().contains_key(k));
                            let t0 = choose|t: int| #[trigger] slot_owns(nodes, slots, held0, t, a, k);
                            assert(slot_owns(nodes, slots, held1, t0, a, k));
                        }
                    }
                    assert(nodes_ok(nodes, allocs1));
                    assert(slots_ok(nodes, slots, held1));
                    assert(locks_ok(nodes, allocs1, slots, held1));
                }
                AllocStep::Acquired
            },
            Err(_) => AllocStep::Busy,
        }
    }

    /// Drops this handle. The shared reference count goes down by one, and
    /// the result says whether it reached zero, in which case the caller
    /// unregisters the buffer from the runtime. If this handle holds its
    /// range, the range is unlocked; ranges held by other handles, clones
    /// included, stay locked.
    pub fn drop_handle(self, reg: &mut Registration) -> (unregister: bool)
        requires
            old(reg).wf(),
            old(reg).holds(&self),
        ensures
            ({
                let e = old(reg).eff(self.node() as int);
                &&& final(reg).wf()
                &&& drop_step(&*old(reg), &*final(reg), unregister)
                &&& final(reg).num_slots() == old(reg).num_slots()
                &&& !final(reg).is_live(self.slot() as int)
                &&& !final(reg).is_held(self.slot() as int)
                &&& slots_kept_except(&*old(reg), &*final(reg), self.slot() as int)
                &&& final(reg).num_nodes() == old(reg).num_nodes()
                &&& ranges_kept(&*old(reg), &*final(reg))
                &&& locks_kept_except(&*old(reg), &*final(reg), self.slot() as int, e)
                &&& old(reg).is_held(self.slot() as int) ==> final(reg).locked(e) == old(
                    reg,
                ).locked(e).remove(self.byte_offset())
                &&& !old(reg).is_held(self.slot() as int) ==> locks_kept(&*old(reg), &*final(reg))
            }),
    {
        let s = self.slot;
        let n = self.node;
        let ghost (nodes, allocs0, slots0, held0) = (
            reg.nodes@,
            reg.allocs@,
            reg.slots@,
            reg.held@,
        );
        proof {
            lemma_live_clear(slots0, s as int);
        }
        reg.slots.set(s, None);
        reg.refcount = reg.refcount - 1;
        let unregister = reg.refcount == 0;
        if reg.held[s] {
            let e = match reg.nodes[n].parent {
                Some(p) => p,
                None => n,
            };
            reg.allocs[e].release(self.offset, self.offset + self.len);
            reg.held.set(s, false);
            proof {
                let allocs1 = reg.allocs@;
                let held1 = reg.held@;
                let slots1 = reg.slots@;
                assert forall|t: int| 0 <= t < held1.len() && #[trigger] held1[t] implies {
                    let m = sn(slots1, t);
                    &&& allocs1[eff_of(nodes, m)].locked().contains_key(nodes[m].offset)
                    &&& allocs1[eff_of(nodes, m)].locked()[nodes[m].offset] == nodes[m].offset
                        + nodes[m].len
                } by {
                    assert(held0[t] && t != s);
                    assert(slots1[t] == slots0[t]);
                }
                assert forall|t: int, u: int|
                    #![trigger held1[t], held1[u]]
                    0 <= t < held1.len() && 0 <= u < held1.len() && t != u && held1[t] && held1[u]
                        && eff_of(nodes, sn(slots1, t)) == eff_of(
                        nodes,
                        sn(slots1, u),
                    ) implies nodes[sn(slots1, t)].offset != nodes[sn(slots1, u)].offset by {
                    assert(held0[t] && held0[u]);
                    assert(slots1[t] == slots0[t] && slots1[u] == slots0[u]);
                }
                assert forall|a: int, k: usize|
                    0 <= a < allocs1.len() && #[trigger] allocs1[a].locked().contains_key(
                        k,
                    ) implies exists|t: int| #[trigger] slot_owns(nodes, slots1, held1, t, a, k) by {
                    assert(allocs0[a].locked().contains_key(k));
                    let t0 = choose|t: int| #[trigger] slot_owns(nodes, slots0, held0, t, a, k);
                    assert(t0 != s);
                    assert(slots1[t0] == slots0[t0]);
                    assert(slot_owns(nodes, slots1, held1, t0, a, k));
                }
                assert(nodes_ok(nodes, allocs1));
                assert(locks_ok(nodes, allocs1, slots1, held1));
            }
        } else {
            proof {
                let slots1 = reg.slots@;
                let held1 = reg.held@;
                assert forall|t: int| 0 <= t < held1.len() && #[trigger] held1[t] implies {
                    let m = sn(slots1, t);
                    &&& allocs0[eff_of(nodes, m)].locked().contains_key(nodes[m].offset)
                    &&& allocs0[eff_of(nodes, m)].locked()[nodes[m].offset] == nodes[m].offset
                        + nodes[m].len
                } by {
                    assert(slots1[t] == slots0[t]);
                }
                assert forall|t: int, u: int|
                    #![trigger held1[t], held1[u]]
                    0 <= t < held1.len() && 0 <= u < held1.len() && t != u && held1[t] && held1[u]
                        && eff_of(nodes, sn(slots1, t)) == eff_of(
                        nodes,
                        sn(slots1, u),
                    ) implies nodes[sn(slots1, t)].offset != nodes[sn(slots1, u)].offset by {
                    assert(slots1[t] == slots0[t] && slots1[u] == slots0[u]);
                }
                assert forall|a: int, k: usize|
                    0 <= a < allocs0.len() && #[trigger] allocs0[a].locked().contains_key(
                        k,
                    ) implies exists|t: int| #[trigger] slot_owns(nodes, slots1, held1, t, a, k) by {
                    let t0 = choose|t: int| #[trigger] slot_owns(nodes, slots0, held0, t, a, k);
                    assert(slots1[t0] == slots0[t0]);
                    assert(slot_owns(nodes, slots1, held1, t0, a, k));
                }
                assert(locks_ok(nodes, allocs0, slots1, held1));
            }
        }
        proof {
            assert(slots_ok(reg.nodes@, reg.slots@, reg.held@));
        }
        unregister
    }

    /// Unregisters the buffer if this is its last live handle, as a drop
    /// that brings the reference count to zero would; the caller then
    /// unregisters it from the runtime. Otherwise hands the handle back and
    /// changes nothing.
    pub fn try_unregister(self, reg: &mut Registration) -> (r: Result<(), RegisteredBuffer>)
        requires
            old(reg).wf(),
            old(reg).holds(&self),
        ensures
            final(reg).wf(),
            r is Ok <==> old(reg).refs() == 1,
            r is Err ==> r == Err::<(), RegisteredBuffer>(self) && *final(reg) == *old(reg),
            r is Ok ==> {
                let e = old(reg).eff(self.node() as int);
                &&& final(reg).refs() == 0
                &&& final(reg).num_slots() == old(reg).num_slots()
                &&& !final(reg).is_live(self.slot() as int)
                &&& !final(reg).is_held(self.slot() as int)
                &&& slots_kept_except(&*old(reg), &*final(reg), self.slot() as int)
                &&& final(reg).num_nodes() == old(reg).num_nodes()
                &&& ranges_kept(&*old(reg), &*final(reg))
                &&& locks_kept_except(&*old(reg), &*final(reg), self.slot() as int, e)
                &&& old(reg).is_held(self.slot() as int) ==> final(reg).locked(e) == old(
                    reg,
                ).locked(e).remove(self.byte_offset())
                &&& !old(reg).is_held(self.slot() as int) ==> locks_kept(&*old(reg), &*final(reg))
            },
    {
        if reg.refcount == 1 {
            let _ = self.drop_handle(reg);
            Ok(())
        } else {
            Err(self)
        }
    }

    /// Whether this is the last live handle of its registration, in which
    /// case the caller invalidates the buffer in the runtime.
    pub fn try_invalidate(&self, reg: &Registration) -> (r: bool)
        requires
            reg.wf(),
            reg.holds(self),
        ensures
            r == (reg.refs() == 1),
    {
        reg.refcount == 1
    }
}

/// Drops the handles `hs`, live handles of `reg` in distinct slots, and
/// returns how many of the drops asked for the buffer to be unregistered:
/// one when they were all of the registration's live handles, none
/// otherwise.
pub fn drop_handles(reg: &mut Registration, hs: Vec<RegisteredBuffer>) -> (unregisters: usize)
    requires
        old(reg).wf(),
        forall|i: int| 0 <= i < hs@.len() ==> old(reg).holds(&#[trigger] hs@[i]),
        forall|i: int, j: int|
            0 <= i < j < hs@.len() ==> (#[trigger] hs@[i]).slot() != (#[trigger] hs@[j]).slot(),
    ensures
        final(reg).wf(),
        old(reg).refs() >= hs@.len(),
        final(reg).refs() == old(reg).refs() - hs@.len(),
        unregisters == (if hs@.len() > 0 && old(reg).refs() == hs@.len() {
            1usize
        } else {
            0usize
        }),
{
    let ghost n = hs@.len();
    let ghost r0 = reg.refs();
    let mut hs = hs;
    let mut unregisters: usize = 0;
    while hs.len() > 0
        invariant
            reg.wf(),
            hs@.len() <= n,
            r0 == reg.refs() + (n - hs@.len()),
            unregisters == (if hs@.len() < n && reg.refs() == 0 {
                1usize
            } else {
                0usize
            }),
            forall|i: int| 0 <= i < hs@.len() ==> reg.holds(&#[trigger] hs@[i]),
            forall|i: int, j: int|
                0 <= i < j < hs@.len() ==> (#[trigger] hs@[i]).slot() != (#[trigger] hs@[j]).slot(),
        decreases hs@.len(),
    {
        let h = hs.pop().unwrap();
        let ghost before = *reg;
        proof {
            lemma_live_some(reg.slots@, h.slot() as int);
            assert(forall|i: int| 0 <= i < hs@.len() ==> #[trigger] hs@[i].slot() != h.slot());
        }
        if h.drop_handle(reg) {
            unregisters = 1;
        }
        proof {
            assert forall|i: int| 0 <= i < hs@.len() implies reg.holds(&#[trigger] hs@[i]) by {
                assert(before.holds(&hs@[i]));
                assert(hs@[i].slot() != h.slot());
            }
        }
    }
    unregisters
}

/// `after` is `before` once one live handle has been dropped, and `fired`
/// says whether that drop asked for the buffer to be unregistered.
pub open spec fn drop_step(before: &Registration, after: &Registration, fired: bool) -> bool {
    &&& before.refs() >= 1
    &&& fired == (before.refs() == 1)
    &&& after.refs() == before.refs() - 1
}

/// The shared reference count is the number of live handles.
pub proof fn lemma_refs_are_live_handles(reg: &Registration)
    requires
        reg.wf(),
    ensures
        reg.refs() == reg.live(),
{
}

/// A range is parted only from an earlier node, so the allocator a node
/// locks against is a node of the registration.
pub proof fn lemma_parent_is_node(reg: &Registration, n: int)
    requires
        reg.wf(),
        0 <= n < reg.num_nodes(),
    ensures
        reg.node_parent(n) matches Some(p) ==> p < n,
        0 <= reg.eff(n) <= n,
{
    assert(reg.nodes@[n] == reg.nodes@[n]);
}

/// A handle that holds its range is live, and its range is an entry of the
/// allocator it is locked against, for as long as it holds it.
pub proof fn lemma_held_is_locked(reg: &Registration, s: int)
    requires
        reg.wf(),
        reg.is_held(s),
    ensures
        reg.is_live(s),
        reg.slot_node(s) < reg.num_nodes(),
        reg.locked(reg.eff(reg.slot_node(s) as int)).contains_key(
            reg.node_offset(reg.slot_node(s) as int),
        ),
        reg.locked(reg.eff(reg.slot_node(s) as int))[reg.node_offset(reg.slot_node(s) as int)]
            == reg.node_offset(reg.slot_node(s) as int) + reg.node_len(reg.slot_node(s) as int),
{
    assert(reg.held@[s]);
}

/// A live handle finds the reference count at one exactly when it is the
/// only live handle of its registration; this is when unregistering or
/// invalidating through it succeeds.
pub proof fn lemma_sole_handle(reg: &Registration, h: &RegisteredBuffer)
    requires
        reg.wf(),
        reg.holds(h),
    ensures
        reg.refs() == 1 <==> forall|s: int| #[trigger] reg.is_live(s) ==> s == h.slot(),
{
    let slots = reg.slots@;
    let i = h.slot() as int;
    lemma_live_clear(slots, i);
    if reg.refs() == 1 {
        assert forall|s: int| #[trigger] reg.is_live(s) implies s == i by {
            if s != i {
                assert(slots.update(i, None)[s] is Some);
                lemma_live_some(slots.update(i, None), s);
            }
        }
    } else {
        if forall|s: int| #[trigger] reg.is_live(s) ==> s == i {
            assert forall|j: int| 0 <= j < slots.len() implies slots.update(i, None)[j] is None by {
                assert(!reg.is_live(j) || j == i);
            }
            lemma_live_none(slots.update(i, None));
        }
    }
}

/// Two different live handles whose ranges are locked against the same
/// allocator and overlap, or start at the same byte, never hold their
/// ranges at the same time.
pub proof fn lemma_overlapping_not_both_held(reg: &Registration, s: int, t: int)
    requires
        reg.wf(),
        reg.is_live(s),
        reg.is_live(t),
        s != t,
        reg.eff(reg.slot_node(s) as int) == reg.eff(reg.slot_node(t) as int),
        entry_clashes(
            reg.node_offset(reg.slot_node(s) as int),
            (reg.node_offset(reg.slot_node(s) as int) + reg.node_len(reg.slot_node(s) as int)) as usize,
            reg.node_offset(reg.slot_node(t) as int),
            (reg.node_offset(reg.slot_node(t) as int) + reg.node_len(reg.slot_node(t) as int)) as usize,
        ),
    ensures
        !(reg.is_held(s) && reg.is_held(t)),
{
    let nodes = reg.nodes@;
    let slots = reg.slots@;
    let held = reg.held@;
    if reg.is_held(s) && reg.is_held(t) {
        assert(held[s] && held[t]);
        let e = eff_of(nodes, sn(slots, s));
        assert(nodes[sn(slots, s)].offset != nodes[sn(slots, t)].offset);
        crate::range_alloc::lemma_locked_disjoint(
            &reg.allocs@[e],
            nodes[sn(slots, s)].offset,
            nodes[sn(slots, t)].offset,
        );
    }
}

/// Once no live handle is left, every range that was locked through a
/// handle has been unlocked again: no handle holds a range and every
/// allocator of the registration is empty.
pub proof fn lemma_all_released_without_handles(reg: &Registration)
    requires
        reg.wf(),
        reg.refs() == 0,
    ensures
        forall|s: int| 0 <= s < reg.num_slots() ==> !#[trigger] reg.is_held(s),
        forall|a: int| 0 <= a < reg.num_nodes() ==> #[trigger] reg.locked(a).is_empty(),
{
    let nodes = reg.nodes@;
    let slots = reg.slots@;
    let held = reg.held@;
    assert forall|s: int| 0 <= s < slots.len() implies slots[s] is None by {
        if slots[s] is Some {
            lemma_live_some(slots, s);
        }
    }
    assert forall|s: int| 0 <= s < reg.num_slots() implies !#[trigger] reg.is_held(s) by {
        if held[s] {
            assert(slots[s] is Some);
        }
    }
    assert forall|a: int| 0 <= a < reg.num_nodes() implies #[trigger] reg.locked(a).is_empty() by {
        if !reg.locked(a).is_empty() {
            let k = reg.locked(a).dom().choose();
            assert(reg.locked(a).dom().contains(k));
            assert(reg.allocs@[a].locked().contains_key(k));
            let s = choose|s: int| #[trigger] slot_owns(nodes, slots, held, s, a, k);
            assert(held[s]);
            assert(slots[s] is Some);
        }
    }
}

/// Dropping, one after another, all of the handles that a registration
/// counts asks for the buffer to be unregistered exactly once: on the last
/// drop, never before.
pub proof fn lemma_drop_all_unregisters_once(states: Seq<Registration>, fired: Seq<bool>)
    requires
        states.len() == fired.len() + 1,
        states[0].refs() == fired.len(),
        forall|i: int|
            0 <= i < fired.len() ==> drop_step(&states[i], &states[i + 1], #[trigger] fired[i]),
    ensures
        fired.len() > 0 ==> fired.last(),
        forall|i: int| 0 <= i < fired.len() - 1 ==> !#[trigger] fired[i],
        states.last().refs() == 0,
{
    assert forall|i: int| 0 <= i <= fired.len() implies #[trigger] states[i].refs() == fired.len()
        - i by {
        lemma_refs_after_drops(states, fired, i);
    }
}

proof fn lemma_refs_after_drops(states: Seq<Registration>, fired: Seq<bool>, i: int)
    requires
        states.len() == fired.len() + 1,
        states[0].refs() == fired.len(),
        forall|j: int|
            0 <= j < fired.len() ==> drop_step(&states[j], &states[j + 1], #[trigger] fired[j]),
        0 <= i <= fired.len(),
    ensures
        states[i].refs() == fired.len() - i,
    decreases i,
{
    if i > 0 {
        lemma_refs_after_drops(states, fired, i - 1);
        assert(drop_step(&states[i - 1], &states[i], fired[i - 1]));
    }
}

} // verus!
