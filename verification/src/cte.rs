//! Capability table entries (slots) and the capability derivation tree: the
//! doubly linked list threaded through the slot arena, its well-formedness
//! invariant, and the insert/move/swap primitives that maintain it.

use vstd::prelude::*;

use crate::arch::{arch_derive_cap, arch_derive_cap_spec};
use crate::capability::{
    badge_of, is_cap_revocable, is_cap_revocable_spec, max_free_index, max_free_index_of,
    same_object_as, same_object_as_spec, same_region_as, same_region_as_spec, CapTag, Capability,
};
use crate::exception::Exception;

verus! {

/// Derivation-tree linkage of one slot: the neighbouring slots in the flat
/// list, and the revocable / first-badged flags.
#[derive(Clone, Copy, PartialEq, Eq, Debug)]
pub struct MdbNode {
    pub prev: Option<usize>,
    pub next: Option<usize>,
    pub revocable: bool,
    pub first_badged: bool,
}

impl MdbNode {
    /// A zeroed node: unlinked, no flags.
    pub open spec fn empty_spec() -> MdbNode {
        (MdbNode { prev: None, next: None, revocable: false, first_badged: false })
    }

    /// Returns a zeroed node.
    pub fn empty() -> (n: MdbNode)
        ensures
            n == MdbNode::empty_spec(),
    {
        MdbNode { prev: None, next: None, revocable: false, first_badged: false }
    }
}

/// One capability table entry: a capability paired with its derivation-tree
/// linkage. Slots live at stable indices in a [`CapSpace`] arena.
#[derive(Clone, Copy, PartialEq, Eq, Debug)]
pub struct cte_t {
    pub capability: Capability,
    pub mdb: MdbNode,
}

impl cte_t {
    /// An empty slot: null capability, zeroed linkage.
    pub open spec fn empty_spec() -> cte_t {
        (cte_t { capability: Capability::Null, mdb: MdbNode::empty_spec() })
    }

    /// Returns an empty slot.
    pub fn empty() -> (c: cte_t)
        ensures
            c == cte_t::empty_spec(),
    {
        cte_t { capability: Capability::Null, mdb: MdbNode::empty() }
    }
}

/// Whether a capability-table capability addresses a run of slots that lies
/// inside an arena of `len` slots.
pub open spec fn cnode_bounded(c: Capability, len: nat) -> bool {
    c matches Capability::CNode { ptr, radix, .. } ==> ptr + (1u64 << (radix as u64)) <= len
}

/// A capability fit to be stored in an arena of `len` slots: well-formed,
/// and, for a capability table, addressing slots inside the arena.
pub open spec fn cap_ok(c: Capability, len: nat) -> bool {
    c.cap_wf() && cnode_bounded(c, len)
}

/// The slot arena: every capability table slot of the system, addressed by
/// index. Slot identity is a stable index for the lifetime of the arena.
pub struct CapSpace {
    pub slots: Vec<cte_t>,
}

impl CapSpace {
    /// Number of slots in the arena.
    pub open spec fn num_slots(&self) -> nat {
        self.slots@.len()
    }

    /// The slot at index `i`.
    pub open spec fn slot_at(&self, i: int) -> cte_t {
        self.slots@[i]
    }

    /// The capability stored at index `i`.
    pub open spec fn cap_at(&self, i: int) -> Capability {
        self.slots@[i].capability
    }

    /// The successor link of slot `i`.
    pub open spec fn next_of(&self, i: int) -> Option<usize> {
        self.slots@[i].mdb.next
    }

    /// The predecessor link of slot `i`.
    pub open spec fn prev_of(&self, i: int) -> Option<usize> {
        self.slots@[i].mdb.prev
    }

    /// Link symmetry: every non-null `prev`/`next` link lands inside the
    /// arena, and the pointed-to slot's reciprocal link points back.
    pub open spec fn links_symmetric(&self) -> bool {
        forall|i: int|
            #![trigger self.next_of(i)]
            #![trigger self.prev_of(i)]
            0 <= i < self.num_slots() ==> {
                &&& (self.next_of(i) matches Some(j) ==> j < self.num_slots() && self.prev_of(
                    j as int,
                ) == Some(i as usize))
                &&& (self.prev_of(i) matches Some(j) ==> j < self.num_slots() && self.next_of(
                    j as int,
                ) == Some(i as usize))
            }
    }

    /// Every stored capability is well-formed and in bounds.
    pub open spec fn caps_ok(&self) -> bool {
        forall|i: int|
            0 <= i < self.num_slots() ==> cap_ok(#[trigger] self.cap_at(i), self.num_slots())
    }

    /// A slot holding the null capability holds no derivation-tree state
    /// either: its node is zeroed. Emptying a slot always zeroes its node,
    /// and nothing ever links a null slot into the list.
    pub open spec fn null_slots_empty(&self) -> bool {
        forall|i: int|
            0 <= i < self.num_slots() ==> ((#[trigger] self.cap_at(i)) is Null ==> self.slot_at(
                i,
            ).mdb == MdbNode::empty_spec())
    }

    /// Well-formedness of the whole arena: the derivation-tree list is
    /// properly doubly linked, every capability is well-formed, and null
    /// slots carry no linkage. This holds after every insert, move, swap and
    /// delete.
    pub open spec fn wf(&self) -> bool {
        self.links_symmetric() && self.caps_ok() && self.null_slots_empty()
    }

    /// An empty slot: null capability, zeroed linkage; the precondition of
    /// insert and move destinations.
    pub open spec fn slot_empty(&self, i: int) -> bool {
        self.slot_at(i) == cte_t::empty_spec()
    }
}

/// If both the source and the inserted capability are untyped capabilities
/// over the identical block, the source is marked fully exhausted (its free
/// index is set to the maximum), so that two live capabilities never both
/// believe they can carve free space out of the same region; otherwise the
/// source capability is untouched.
pub open spec fn set_untyped_cap_as_full_spec(src_cap: Capability, new_cap: Capability) -> Capability {
    match (src_cap, new_cap) {
        (
            Capability::Untyped { ptr: p1, block_size: b1, free_index: _ },
            Capability::Untyped { ptr: p2, block_size: b2, free_index: _ },
        ) => {
            if p1 == p2 && b1 == b2 {
                (Capability::Untyped { ptr: p1, block_size: b1, free_index: max_free_index_of(b1) })
            } else {
                src_cap
            }
        },
        _ => src_cap,
    }
}

/// Computes `set_untyped_cap_as_full_spec(src_cap, new_cap)`.
fn set_untyped_cap_as_full(src_cap: &Capability, new_cap: &Capability) -> (c: Capability)
    requires
        src_cap.cap_wf(),
    ensures
        c == set_untyped_cap_as_full_spec(*src_cap, *new_cap),
        c.cap_wf(),
{
    match (src_cap, new_cap) {
        (
            Capability::Untyped { ptr: p1, block_size: b1, .. },
            Capability::Untyped { ptr: p2, block_size: b2, .. },
        ) => {
            if *p1 == *p2 && *b1 == *b2 {
                Capability::Untyped {
                    ptr: *p1,
                    block_size: *b1,
                    free_index: max_free_index(*b1),
                }
            } else {
                *src_cap
            }
        },
        _ => *src_cap,
    }
}

/// The state of the arena after `cte_insert(new_cap, src, dest)`: the
/// destination takes the new capability, linked immediately after the source
/// with the revocable / first-badged flags given by the revocability rule;
/// the source's former successor (if any) is repointed; the source capability
/// is exhausted if it shares an untyped block with the new capability.
pub open spec fn cte_insert_spec(s: Seq<cte_t>, new_cap: Capability, src: int, dest: int) -> Seq<
    cte_t,
> {
    let src_cte = s[src];
    let r = is_cap_revocable_spec(new_cap, src_cte.capability);
    let new_mdb = (MdbNode {
        prev: Some(src as usize),
        next: src_cte.mdb.next,
        revocable: r,
        first_badged: r,
    });
    let s1 = s.update(
        src,
        (cte_t {
            capability: set_untyped_cap_as_full_spec(src_cte.capability, new_cap),
            mdb: src_cte.mdb,
        }),
    );
    let s2 = s1.update(dest, (cte_t { capability: new_cap, mdb: new_mdb }));
    let s3 = s2.update(
        src,
        (cte_t {
            capability: s2[src].capability,
            mdb: (MdbNode {
                prev: s2[src].mdb.prev,
                next: Some(dest as usize),
                revocable: s2[src].mdb.revocable,
                first_badged: s2[src].mdb.first_badged,
            }),
        }),
    );
    match new_mdb.next {
        Some(z) => s3.update(
            z as int,
            (cte_t {
                capability: s3[z as int].capability,
                mdb: (MdbNode {
                    prev: Some(dest as usize),
                    next: s3[z as int].mdb.next,
                    revocable: s3[z as int].mdb.revocable,
                    first_badged: s3[z as int].mdb.first_badged,
                }),
            }),
        ),
        None => s3,
    }
}

/// Inserts `new_cap` into the empty slot `dest_slot` as a derivation child of
/// `src_slot`, splicing it immediately after the source in the derivation
/// list. Link symmetry is preserved.
pub fn cte_insert(cs: &mut CapSpace, new_cap: &Capability, src_slot: usize, dest_slot: usize)
    requires
        old(cs).wf(),
        src_slot < old(cs).num_slots(),
        dest_slot < old(cs).num_slots(),
        src_slot != dest_slot,
        old(cs).slot_empty(dest_slot as int),
        cap_ok(*new_cap, old(cs).num_slots()),
        !(*new_cap is Null),
        !(old(cs).cap_at(src_slot as int) is Null),
    ensures
        final(cs).wf(),
        final(cs).num_slots() == old(cs).num_slots(),
        final(cs).slots@ == cte_insert_spec(
            old(cs).slots@,
            *new_cap,
            src_slot as int,
            dest_slot as int,
        ),
{
    let arena_len = cs.slots.len();
    let src_cte = cs.slots[src_slot];
    let new_cap_is_revocable = is_cap_revocable(new_cap, &src_cte.capability);
    let new_mdb = MdbNode {
        prev: Some(src_slot),
        next: src_cte.mdb.next,
        revocable: new_cap_is_revocable,
        first_badged: new_cap_is_revocable,
    };
    let full_cap = set_untyped_cap_as_full(&src_cte.capability, new_cap);
    cs.slots[src_slot].capability = full_cap;
    cs.slots[dest_slot] = cte_t { capability: *new_cap, mdb: new_mdb };
    cs.slots[src_slot].mdb.next = Some(dest_slot);
    match new_mdb.next {
        Some(z) => {
            proof {
                assert(old(cs).next_of(src_slot as int) == Some(z));
            }
            cs.slots[z].mdb.prev = Some(dest_slot);
        },
        None => {},
    }
    proof {
        assert(old(cs).num_slots() == arena_len);
        lemma_cte_insert_wf(*old(cs), *cs, *new_cap, src_slot as int, dest_slot as int);
    }
}

#[verifier::rlimit(100)]
#[verifier::spinoff_prover]
proof fn lemma_cte_insert_wf(pre: CapSpace, post: CapSpace, new_cap: Capability, src: int, dest: int)
    requires
        pre.wf(),
        pre.num_slots() <= usize::MAX,
        0 <= src < pre.num_slots(),
        0 <= dest < pre.num_slots(),
        src != dest,
        pre.slot_empty(dest),
        cap_ok(new_cap, pre.num_slots()),
        !(new_cap is Null),
        !(pre.cap_at(src) is Null),
        post.slots@ == cte_insert_spec(pre.slots@, new_cap, src, dest),
    ensures
        post.wf(),
{
    let n = pre.num_slots();
    let s = pre.slots@;
    let t = post.slots@;
    let old_next = s[src].mdb.next;
    assert(post.num_slots() == n);
    assert forall|i: int| 0 <= i < n implies cap_ok(#[trigger] post.cap_at(i), n) by {
        assert(cap_ok(pre.cap_at(i), n));
        assert(cap_ok(pre.cap_at(src), n));
    }
    assert forall|i: int|
        0 <= i < n implies ((#[trigger] post.cap_at(i)) is Null ==> post.slot_at(i).mdb
        == MdbNode::empty_spec()) by {
        assert(pre.cap_at(i) is Null ==> pre.slot_at(i).mdb == MdbNode::empty_spec());
        match pre.next_of(src) {
            Some(z) => {
                assert(z < n && pre.prev_of(z as int) == Some(src as usize));
                assert(pre.cap_at(z as int) is Null ==> pre.slot_at(z as int).mdb
                    == MdbNode::empty_spec());
            },
            None => {},
        }
    }
    assert(pre.prev_of(dest) is None && pre.next_of(dest) is None);
    match old_next {
        Some(z) => {
            assert(pre.next_of(src) == Some(z));
            assert(z < n && pre.prev_of(z as int) == Some(src as usize));
        },
        None => {},
    }
    assert forall|i: int|
        #![trigger post.next_of(i)]
        #![trigger post.prev_of(i)]
        0 <= i < n implies {
            &&& (post.next_of(i) matches Some(j) ==> j < n && post.prev_of(j as int) == Some(
                i as usize,
            ))
            &&& (post.prev_of(i) matches Some(j) ==> j < n && post.next_of(j as int) == Some(
                i as usize,
            ))
        } by {
        if i != src && i != dest && old_next != Some(i as usize) {
            assert(t[i] == s[i]);
        }
        match pre.next_of(i) {
            Some(j) => {
                assert(j < n && pre.prev_of(j as int) == Some(i as usize));
            },
            None => {},
        }
        match pre.prev_of(i) {
            Some(j) => {
                assert(j < n && pre.next_of(j as int) == Some(i as usize));
            },
            None => {},
        }
        match pre.prev_of(src) {
            Some(j) => {
                assert(j < n && pre.next_of(j as int) == Some(src as usize));
            },
            None => {},
        }
        match old_next {
            Some(z) => {
                if z == src {
                    assert(t[src].mdb.next == Some(dest as usize));
                    assert(t[src].mdb.prev == Some(dest as usize));
                    assert(t[dest].mdb.prev == Some(src as usize));
                    assert(t[dest].mdb.next == Some(src as usize));
                } else {
                    assert(t[src].mdb.next == Some(dest as usize));
                    assert(t[src].mdb.prev == s[src].mdb.prev);
                    assert(t[z as int].mdb.prev == Some(dest as usize));
                    assert(t[z as int].mdb.next == s[z as int].mdb.next);
                    assert(t[dest].mdb.prev == Some(src as usize));
                    assert(t[dest].mdb.next == Some(z));
                }
                match pre.next_of(z as int) {
                    Some(j) => {
                        assert(j < n && pre.prev_of(j as int) == Some(z));
                    },
                    None => {},
                }
            },
            None => {
                assert(t[src].mdb.next == Some(dest as usize));
                assert(t[src].mdb.prev == s[src].mdb.prev);
                assert(t[dest].mdb.prev == Some(src as usize));
                assert(t[dest].mdb.next is None);
            },
        }
    }
}

/// The state of the arena after `cte_move(new_cap, src, dest)`: the
/// destination takes the new capability together with the source's entire
/// derivation-tree position; the source becomes empty and unlinked, and its
/// former neighbours are repointed at the destination.
pub open spec fn cte_move_spec(s: Seq<cte_t>, new_cap: Capability, src: int, dest: int) -> Seq<
    cte_t,
> {
    let mdb = s[src].mdb;
    let s1 = s.update(dest, (cte_t { capability: new_cap, mdb }));
    let s2 = s1.update(src, cte_t::empty_spec());
    let s3 = match mdb.prev {
        Some(p) => s2.update(
            p as int,
            (cte_t {
                capability: s2[p as int].capability,
                mdb: (MdbNode {
                    prev: s2[p as int].mdb.prev,
                    next: Some(dest as usize),
                    revocable: s2[p as int].mdb.revocable,
                    first_badged: s2[p as int].mdb.first_badged,
                }),
            }),
        ),
        None => s2,
    };
    match mdb.next {
        Some(q) => s3.update(
            q as int,
            (cte_t {
                capability: s3[q as int].capability,
                mdb: (MdbNode {
                    prev: Some(dest as usize),
                    next: s3[q as int].mdb.next,
                    revocable: s3[q as int].mdb.revocable,
                    first_badged: s3[q as int].mdb.first_badged,
                }),
            }),
        ),
        None => s3,
    }
}

/// Moves a capability from `src_slot` into the empty slot `dest_slot`,
/// relinquishing the source's entire derivation-tree position to the
/// destination without changing derivation relationships or revocability.
/// Link symmetry is preserved.
pub fn cte_move(cs: &mut CapSpace, new_cap: &Capability, src_slot: usize, dest_slot: usize)
    requires
        old(cs).wf(),
        src_slot < old(cs).num_slots(),
        dest_slot < old(cs).num_slots(),
        src_slot != dest_slot,
        old(cs).slot_empty(dest_slot as int),
        old(cs).next_of(src_slot as int) != Some(src_slot),
        old(cs).prev_of(src_slot as int) != Some(src_slot),
        cap_ok(*new_cap, old(cs).num_slots()),
        !(*new_cap is Null),
    ensures
        final(cs).wf(),
        final(cs).num_slots() == old(cs).num_slots(),
        final(cs).slots@ == cte_move_spec(
            old(cs).slots@,
            *new_cap,
            src_slot as int,
            dest_slot as int,
        ),
{
    let arena_len = cs.slots.len();
    let mdb = cs.slots[src_slot].mdb;
    cs.slots[dest_slot] = cte_t { capability: *new_cap, mdb };
    cs.slots[src_slot] = cte_t::empty();
    match mdb.prev {
        Some(p) => {
            proof {
                assert(old(cs).prev_of(src_slot as int) == Some(p));
            }
            cs.slots[p].mdb.next = Some(dest_slot);
        },
        None => {},
    }
    match mdb.next {
        Some(q) => {
            proof {
                assert(old(cs).next_of(src_slot as int) == Some(q));
            }
            cs.slots[q].mdb.prev = Some(dest_slot);
        },
        None => {},
    }
    proof {
        assert(old(cs).num_slots() == arena_len);
        lemma_cte_move_wf(*old(cs), *cs, *new_cap, src_slot as int, dest_slot as int);
    }
}

#[verifier::rlimit(100)]
#[verifier::spinoff_prover]
proof fn lemma_cte_move_wf(pre: CapSpace, post: CapSpace, new_cap: Capability, src: int, dest: int)
    requires
        pre.wf(),
        pre.num_slots() <= usize::MAX,
        0 <= src < pre.num_slots(),
        0 <= dest < pre.num_slots(),
        src != dest,
        pre.slot_empty(dest),
        pre.next_of(src) != Some(src as usize),
        pre.prev_of(src) != Some(src as usize),
        cap_ok(new_cap, pre.num_slots()),
        !(new_cap is Null),
        post.slots@ == cte_move_spec(pre.slots@, new_cap, src, dest),
    ensures
        post.wf(),
{
    let n = pre.num_slots();
    let s = pre.slots@;
    let t = post.slots@;
    assert(post.num_slots() == n);
    assert forall|i: int| 0 <= i < n implies cap_ok(#[trigger] post.cap_at(i), n) by {
        assert(cap_ok(pre.cap_at(i), n));
    }
    assert forall|i: int|
        0 <= i < n implies ((#[trigger] post.cap_at(i)) is Null ==> post.slot_at(i).mdb
        == MdbNode::empty_spec()) by {
        assert(pre.cap_at(i) is Null ==> pre.slot_at(i).mdb == MdbNode::empty_spec());
        match pre.prev_of(src) {
            Some(p) => {
                assert(p < n && pre.next_of(p as int) == Some(src as usize));
                assert(pre.cap_at(p as int) is Null ==> pre.slot_at(p as int).mdb
                    == MdbNode::empty_spec());
            },
            None => {},
        }
        match pre.next_of(src) {
            Some(q) => {
                assert(q < n && pre.prev_of(q as int) == Some(src as usize));
                assert(pre.cap_at(q as int) is Null ==> pre.slot_at(q as int).mdb
                    == MdbNode::empty_spec());
            },
            None => {},
        }
    }
    assert(pre.prev_of(dest) is None && pre.next_of(dest) is None);
    match pre.prev_of(src) {
        Some(p) => {
            assert(p < n && pre.next_of(p as int) == Some(src as usize));
        },
        None => {},
    }
    match pre.next_of(src) {
        Some(q) => {
            assert(q < n && pre.prev_of(q as int) == Some(src as usize));
        },
        None => {},
    }
    assert forall|i: int|
        #![trigger post.next_of(i)]
        #![trigger post.prev_of(i)]
        0 <= i < n implies {
            &&& (post.next_of(i) matches Some(j) ==> j < n && post.prev_of(j as int) == Some(
                i as usize,
            ))
            &&& (post.prev_of(i) matches Some(j) ==> j < n && post.next_of(j as int) == Some(
                i as usize,
            ))
        } by {
        match pre.next_of(i) {
            Some(j) => {
                assert(j < n && pre.prev_of(j as int) == Some(i as usize));
            },
            None => {},
        }
        match pre.prev_of(i) {
            Some(j) => {
                assert(j < n && pre.next_of(j as int) == Some(i as usize));
            },
            None => {},
        }
        match pre.prev_of(src) {
            Some(p) => {
                match pre.prev_of(p as int) {
                    Some(j) => {
                        assert(j < n && pre.next_of(j as int) == Some(p));
                    },
                    None => {},
                }
            },
            None => {},
        }
        match pre.next_of(src) {
            Some(q) => {
                match pre.next_of(q as int) {
                    Some(j) => {
                        assert(j < n && pre.prev_of(j as int) == Some(q));
                    },
                    None => {},
                }
            },
            None => {},
        }
    }
}

/// A slot with its successor link replaced.
pub open spec fn with_next(c: cte_t, l: Option<usize>) -> cte_t {
    (cte_t {
        capability: c.capability,
        mdb: (MdbNode {
            prev: c.mdb.prev,
            next: l,
            revocable: c.mdb.revocable,
            first_badged: c.mdb.first_badged,
        }),
    })
}

/// A slot with its predecessor link replaced.
pub open spec fn with_prev(c: cte_t, l: Option<usize>) -> cte_t {
    (cte_t {
        capability: c.capability,
        mdb: (MdbNode {
            prev: l,
            next: c.mdb.next,
            revocable: c.mdb.revocable,
            first_badged: c.mdb.first_badged,
        }),
    })
}

/// First phase of a swap: the first slot's neighbours are repointed at the
/// second slot.
pub open spec fn swap_phase_a(s: Seq<cte_t>, slot1: int, slot2: int) -> Seq<cte_t> {
    let mdb1 = s[slot1].mdb;
    let c1 = match mdb1.prev {
        Some(p) => s.update(p as int, with_next(s[p as int], Some(slot2 as usize))),
        None => s,
    };
    match mdb1.next {
        Some(q) => c1.update(q as int, with_prev(c1[q as int], Some(slot2 as usize))),
        None => c1,
    }
}

/// Second phase of a swap: the two nodes are exchanged, the capabilities
/// installed, and the second node's neighbours repointed at the first slot.
pub open spec fn swap_phase_b(
    m: Seq<cte_t>,
    cap1: Capability,
    slot1: int,
    cap2: Capability,
    slot2: int,
    mdb1: MdbNode,
) -> Seq<cte_t> {
    let mdb2 = m[slot2].mdb;
    let c3 = m.update(slot1, (cte_t { capability: cap2, mdb: mdb2 }));
    let c4 = c3.update(slot2, (cte_t { capability: cap1, mdb: mdb1 }));
    let c5 = match mdb2.prev {
        Some(p) => c4.update(p as int, with_next(c4[p as int], Some(slot1 as usize))),
        None => c4,
    };
    match mdb2.next {
        Some(q) => c5.update(q as int, with_prev(c5[q as int], Some(slot1 as usize))),
        None => c5,
    }
}

/// The swap written as the sequence of single-slot writes the code performs.
pub open spec fn cte_swap_chain_spec(
    s: Seq<cte_t>,
    cap1: Capability,
    slot1: int,
    cap2: Capability,
    slot2: int,
) -> Seq<cte_t> {
    swap_phase_b(swap_phase_a(s, slot1, slot2), cap1, slot1, cap2, slot2, s[slot1].mdb)
}

/// The per-slot description of the arena after the first phase of a swap.
pub open spec fn swap_mid_slot_spec(s: Seq<cte_t>, slot1: int, slot2: int, i: int) -> cte_t {
    let mdb1 = s[slot1].mdb;
    (cte_t {
        capability: s[i].capability,
        mdb: (MdbNode {
            prev: if Some(i as usize) == mdb1.next {
                Some(slot2 as usize)
            } else {
                s[i].mdb.prev
            },
            next: if Some(i as usize) == mdb1.prev {
                Some(slot2 as usize)
            } else {
                s[i].mdb.next
            },
            revocable: s[i].mdb.revocable,
            first_badged: s[i].mdb.first_badged,
        }),
    })
}

/// The first phase of a swap produces exactly its per-slot description.
#[verifier::spinoff_prover]
proof fn lemma_swap_phase_a(s: Seq<cte_t>, slot1: int, slot2: int)
    requires
        0 <= slot1 < s.len(),
        0 <= slot2 < s.len(),
        s.len() <= usize::MAX,
        s[slot1].mdb.prev matches Some(p) ==> p < s.len(),
        s[slot1].mdb.next matches Some(q) ==> q < s.len(),
    ensures
        swap_phase_a(s, slot1, slot2) == Seq::new(
            s.len(),
            |i: int| swap_mid_slot_spec(s, slot1, slot2, i),
        ),
{
    let a = swap_phase_a(s, slot1, slot2);
    let m = Seq::new(s.len(), |i: int| swap_mid_slot_spec(s, slot1, slot2, i));
    assert forall|i: int| 0 <= i < s.len() implies a[i] == m[i] by {
        assert(m[i] == swap_mid_slot_spec(s, slot1, slot2, i));
    }
    assert(a =~= m);
}

/// The second phase of a swap, run on the mid-state description, produces
/// exactly the final per-slot description of the swap.
#[verifier::rlimit(100)]
#[verifier::spinoff_prover]
proof fn lemma_swap_phase_b(
    s: Seq<cte_t>,
    cap1: Capability,
    slot1: int,
    cap2: Capability,
    slot2: int,
)
    requires
        0 <= slot1 < s.len(),
        0 <= slot2 < s.len(),
        slot1 != slot2,
        s.len() <= usize::MAX,
        swap_mdb2_spec(s, slot1, slot2).prev matches Some(p) ==> p < s.len(),
        swap_mdb2_spec(s, slot1, slot2).next matches Some(q) ==> q < s.len(),
    ensures
        swap_phase_b(
            Seq::new(s.len(), |i: int| swap_mid_slot_spec(s, slot1, slot2, i)),
            cap1,
            slot1,
            cap2,
            slot2,
            s[slot1].mdb,
        ) == cte_swap_spec(s, cap1, slot1, cap2, slot2),
{
    let m = Seq::new(s.len(), |i: int| swap_mid_slot_spec(s, slot1, slot2, i));
    let b = swap_phase_b(m, cap1, slot1, cap2, slot2, s[slot1].mdb);
    let pointwise = cte_swap_spec(s, cap1, slot1, cap2, slot2);
    assert(m[slot2].mdb == swap_mdb2_spec(s, slot1, slot2));
    assert forall|i: int| 0 <= i < s.len() implies b[i] == pointwise[i] by {
        assert(m[i] == swap_mid_slot_spec(s, slot1, slot2, i));
        assert(pointwise[i] == swap_slot_spec(s, cap1, slot1, cap2, slot2, i));
        match swap_mdb2_spec(s, slot1, slot2).prev {
            Some(p) => {
                assert(m[p as int] == swap_mid_slot_spec(s, slot1, slot2, p as int));
            },
            None => {},
        }
        match swap_mdb2_spec(s, slot1, slot2).next {
            Some(q) => {
                assert(m[q as int] == swap_mid_slot_spec(s, slot1, slot2, q as int));
            },
            None => {},
        }
    }
    assert(b =~= pointwise);
}

/// The write sequence of a swap produces exactly the per-slot description
/// `cte_swap_spec`, provided the arena is well formed.
#[verifier::spinoff_prover]
proof fn lemma_cte_swap_chain(
    pre: CapSpace,
    cap1: Capability,
    slot1: int,
    cap2: Capability,
    slot2: int,
)
    requires
        pre.wf(),
        pre.num_slots() <= usize::MAX,
        0 <= slot1 < pre.num_slots(),
        0 <= slot2 < pre.num_slots(),
        slot1 != slot2,
    ensures
        cte_swap_chain_spec(pre.slots@, cap1, slot1, cap2, slot2) == cte_swap_spec(
            pre.slots@,
            cap1,
            slot1,
            cap2,
            slot2,
        ),
{
    let n = pre.num_slots();
    let s = pre.slots@;
    match pre.prev_of(slot1) {
        Some(p) => {
            assert(p < n && pre.next_of(p as int) == Some(slot1 as usize));
        },
        None => {},
    }
    match pre.next_of(slot1) {
        Some(q) => {
            assert(q < n && pre.prev_of(q as int) == Some(slot1 as usize));
        },
        None => {},
    }
    match pre.prev_of(slot2) {
        Some(p) => {
            assert(p < n && pre.next_of(p as int) == Some(slot2 as usize));
        },
        None => {},
    }
    match pre.next_of(slot2) {
        Some(q) => {
            assert(q < n && pre.prev_of(q as int) == Some(slot2 as usize));
        },
        None => {},
    }
    lemma_swap_phase_a(s, slot1, slot2);
    lemma_swap_phase_b(s, cap1, slot1, cap2, slot2);
}

/// The node that ends up in `slot1` during a swap: `slot2`'s node as it
/// stands after the first phase of repointing, in which a link of `slot2`
/// that pointed at `slot1` has already been replaced by a link to `slot2`.
pub open spec fn swap_mdb2_spec(s: Seq<cte_t>, slot1: int, slot2: int) -> MdbNode {
    let mdb1 = s[slot1].mdb;
    let old2 = s[slot2].mdb;
    (MdbNode {
        prev: if mdb1.next == Some(slot2 as usize) {
            Some(slot2 as usize)
        } else {
            old2.prev
        },
        next: if mdb1.prev == Some(slot2 as usize) {
            Some(slot2 as usize)
        } else {
            old2.next
        },
        revocable: old2.revocable,
        first_badged: old2.first_badged,
    })
}

/// The slot at index `i` after `cte_swap(cap1, slot1, cap2, slot2)`: the two
/// slots exchange their derivation-tree nodes, `slot1` takes `cap2` and
/// `slot2` takes `cap1`, and each node's former neighbours are repointed at
/// the other slot; a later repointing wins over an earlier one.
pub open spec fn swap_slot_spec(
    s: Seq<cte_t>,
    cap1: Capability,
    slot1: int,
    cap2: Capability,
    slot2: int,
    i: int,
) -> cte_t {
    let mdb1 = s[slot1].mdb;
    let mdb2 = swap_mdb2_spec(s, slot1, slot2);
    let capability = if i == slot1 {
        cap2
    } else if i == slot2 {
        cap1
    } else {
        s[i].capability
    };
    let next = if Some(i as usize) == mdb2.prev {
        Some(slot1 as usize)
    } else if i == slot2 {
        mdb1.next
    } else if i == slot1 {
        mdb2.next
    } else if Some(i as usize) == mdb1.prev {
        Some(slot2 as usize)
    } else {
        s[i].mdb.next
    };
    let prev = if Some(i as usize) == mdb2.next {
        Some(slot1 as usize)
    } else if i == slot2 {
        mdb1.prev
    } else if i == slot1 {
        mdb2.prev
    } else if Some(i as usize) == mdb1.next {
        Some(slot2 as usize)
    } else {
        s[i].mdb.prev
    };
    let revocable = if i == slot1 {
        s[slot2].mdb.revocable
    } else if i == slot2 {
        s[slot1].mdb.revocable
    } else {
        s[i].mdb.revocable
    };
    let first_badged = if i == slot1 {
        s[slot2].mdb.first_badged
    } else if i == slot2 {
        s[slot1].mdb.first_badged
    } else {
        s[i].mdb.first_badged
    };
    (cte_t { capability, mdb: (MdbNode { prev, next, revocable, first_badged }) })
}

/// The state of the whole arena after `cte_swap(cap1, slot1, cap2, slot2)`.
pub open spec fn cte_swap_spec(
    s: Seq<cte_t>,
    cap1: Capability,
    slot1: int,
    cap2: Capability,
    slot2: int,
) -> Seq<cte_t> {
    Seq::new(s.len(), |i: int| swap_slot_spec(s, cap1, slot1, cap2, slot2, i))
}

/// Exchanges the capabilities and derivation-tree positions of two distinct
/// slots, installing `cap2` into `slot1` and `cap1` into `slot2`, and
/// repointing each node's former neighbours at the other slot. The two slots
/// may be neighbours of one another, but neither may be linked to itself.
/// Link symmetry is preserved.
#[verifier::rlimit(100)]
#[verifier::spinoff_prover]
pub fn cte_swap(cs: &mut CapSpace, cap1: &Capability, slot1: usize, cap2: &Capability, slot2: usize)
    requires
        old(cs).wf(),
        slot1 < old(cs).num_slots(),
        slot2 < old(cs).num_slots(),
        slot1 != slot2,
        old(cs).next_of(slot1 as int) != Some(slot1),
        old(cs).prev_of(slot1 as int) != Some(slot1),
        old(cs).next_of(slot2 as int) != Some(slot2),
        old(cs).prev_of(slot2 as int) != Some(slot2),
        cap_ok(*cap1, old(cs).num_slots()),
        cap_ok(*cap2, old(cs).num_slots()),
        *cap1 is Null ==> old(cs).slot_at(slot1 as int).mdb == MdbNode::empty_spec(),
        *cap2 is Null ==> old(cs).slot_at(slot2 as int).mdb == MdbNode::empty_spec(),
    ensures
        final(cs).wf(),
        final(cs).num_slots() == old(cs).num_slots(),
        final(cs).slots@ == cte_swap_spec(
            old(cs).slots@,
            *cap1,
            slot1 as int,
            *cap2,
            slot2 as int,
        ),
{
    let arena_len = cs.slots.len();
    let mdb1 = cs.slots[slot1].mdb;
    match mdb1.prev {
        Some(p) => {
            proof {
                assert(old(cs).prev_of(slot1 as int) == Some(p));
            }
            cs.slots[p].mdb.next = Some(slot2);
        },
        None => {},
    }
    match mdb1.next {
        Some(q) => {
            proof {
                assert(old(cs).next_of(slot1 as int) == Some(q));
            }
            cs.slots[q].mdb.prev = Some(slot2);
        },
        None => {},
    }
    let mdb2 = cs.slots[slot2].mdb;
    proof {
        match old(cs).prev_of(slot2 as int) {
            Some(j) => {
                assert(j < old(cs).num_slots() && old(cs).next_of(j as int) == Some(slot2));
            },
            None => {},
        }
        match old(cs).next_of(slot2 as int) {
            Some(j) => {
                assert(j < old(cs).num_slots() && old(cs).prev_of(j as int) == Some(slot2));
            },
            None => {},
        }
        assert(mdb2 == swap_mdb2_spec(old(cs).slots@, slot1 as int, slot2 as int));
        assert(mdb2.prev matches Some(p) ==> p < arena_len);
        assert(mdb2.next matches Some(q) ==> q < arena_len);
    }
    cs.slots[slot1] = cte_t { capability: *cap2, mdb: mdb2 };
    cs.slots[slot2] = cte_t { capability: *cap1, mdb: mdb1 };
    match mdb2.prev {
        Some(p) => {
            cs.slots[p].mdb.next = Some(slot1);
        },
        None => {},
    }
    match mdb2.next {
        Some(q) => {
            cs.slots[q].mdb.prev = Some(slot1);
        },
        None => {},
    }
    proof {
        assert(old(cs).num_slots() == arena_len);
        assert(cs.slots@ =~= cte_swap_chain_spec(
            old(cs).slots@,
            *cap1,
            slot1 as int,
            *cap2,
            slot2 as int,
        ));
        lemma_cte_swap_chain(*old(cs), *cap1, slot1 as int, *cap2, slot2 as int);
        lemma_cte_swap_wf(*old(cs), *cs, *cap1, slot1 as int, *cap2, slot2 as int);
    }
}

#[verifier::rlimit(100)]
#[verifier::spinoff_prover]
proof fn lemma_cte_swap_wf(
    pre: CapSpace,
    post: CapSpace,
    cap1: Capability,
    slot1: int,
    cap2: Capability,
    slot2: int,
)
    requires
        pre.wf(),
        pre.num_slots() <= usize::MAX,
        0 <= slot1 < pre.num_slots(),
        0 <= slot2 < pre.num_slots(),
        slot1 != slot2,
        pre.next_of(slot1) != Some(slot1 as usize),
        pre.prev_of(slot1) != Some(slot1 as usize),
        pre.next_of(slot2) != Some(slot2 as usize),
        pre.prev_of(slot2) != Some(slot2 as usize),
        cap_ok(cap1, pre.num_slots()),
        cap_ok(cap2, pre.num_slots()),
        cap1 is Null ==> pre.slot_at(slot1).mdb == MdbNode::empty_spec(),
        cap2 is Null ==> pre.slot_at(slot2).mdb == MdbNode::empty_spec(),
        post.slots@ == cte_swap_spec(pre.slots@, cap1, slot1, cap2, slot2),
    ensures
        post.wf(),
{
    let n = pre.num_slots();
    let s = pre.slots@;
    let t = post.slots@;
    assert(post.num_slots() == n);
    assert forall|i: int| 0 <= i < n implies cap_ok(#[trigger] post.cap_at(i), n) by {
        assert(post.cap_at(i) == swap_slot_spec(s, cap1, slot1, cap2, slot2, i).capability);
        assert(cap_ok(pre.cap_at(i), n));
        assert(cap_ok(pre.cap_at(slot1), n));
        assert(cap_ok(pre.cap_at(slot2), n));
    }
    match pre.prev_of(slot1) {
        Some(p) => {
            assert(p < n && pre.next_of(p as int) == Some(slot1 as usize));
        },
        None => {},
    }
    match pre.next_of(slot1) {
        Some(q) => {
            assert(q < n && pre.prev_of(q as int) == Some(slot1 as usize));
        },
        None => {},
    }
    match pre.prev_of(slot2) {
        Some(p) => {
            assert(p < n && pre.next_of(p as int) == Some(slot2 as usize));
        },
        None => {},
    }
    match pre.next_of(slot2) {
        Some(q) => {
            assert(q < n && pre.prev_of(q as int) == Some(slot2 as usize));
        },
        None => {},
    }
    assert forall|i: int|
        0 <= i < n implies ((#[trigger] post.cap_at(i)) is Null ==> post.slot_at(i).mdb
        == MdbNode::empty_spec()) by {
        assert(post.slot_at(i) == swap_slot_spec(s, cap1, slot1, cap2, slot2, i));
        assert(pre.cap_at(i) is Null ==> pre.slot_at(i).mdb == MdbNode::empty_spec());
        match pre.next_of(i) {
            Some(j) => {
                assert(j < n && pre.prev_of(j as int) == Some(i as usize));
            },
            None => {},
        }
        match pre.prev_of(i) {
            Some(j) => {
                assert(j < n && pre.next_of(j as int) == Some(i as usize));
            },
            None => {},
        }
    }
    assert forall|i: int|
        #![trigger post.next_of(i)]
        #![trigger post.prev_of(i)]
        0 <= i < n implies {
            &&& (post.next_of(i) matches Some(j) ==> j < n && post.prev_of(j as int) == Some(
                i as usize,
            ))
            &&& (post.prev_of(i) matches Some(j) ==> j < n && post.next_of(j as int) == Some(
                i as usize,
            ))
        } by {
        assert(post.slot_at(i) == swap_slot_spec(s, cap1, slot1, cap2, slot2, i));
        match pre.next_of(i) {
            Some(j) => {
                assert(j < n && pre.prev_of(j as int) == Some(i as usize));
                assert(post.slot_at(j as int) == swap_slot_spec(s, cap1, slot1, cap2, slot2, j as int));
            },
            None => {},
        }
        match pre.prev_of(i) {
            Some(j) => {
                assert(j < n && pre.next_of(j as int) == Some(i as usize));
                assert(post.slot_at(j as int) == swap_slot_spec(s, cap1, slot1, cap2, slot2, j as int));
            },
            None => {},
        }
        assert(post.slot_at(slot1) == swap_slot_spec(s, cap1, slot1, cap2, slot2, slot1));
        assert(post.slot_at(slot2) == swap_slot_spec(s, cap1, slot1, cap2, slot2, slot2));
    }
}

/// The state of the arena after `insert_new_cap(parent, slot, cap)`: the new
/// slot is placed as the parent's immediate successor, revocable and
/// first-badged, with the parent's former successor preserved after it.
pub open spec fn insert_new_cap_spec(
    s: Seq<cte_t>,
    parent: int,
    slot: int,
    capability: Capability,
) -> Seq<cte_t> {
    let next = s[parent].mdb.next;
    let s1 = s.update(
        slot,
        (cte_t {
            capability,
            mdb: (MdbNode {
                prev: Some(parent as usize),
                next,
                revocable: true,
                first_badged: true,
            }),
        }),
    );
    let s2 = match next {
        Some(z) => s1.update(
            z as int,
            (cte_t {
                capability: s1[z as int].capability,
                mdb: (MdbNode {
                    prev: Some(slot as usize),
                    next: s1[z as int].mdb.next,
                    revocable: s1[z as int].mdb.revocable,
                    first_badged: s1[z as int].mdb.first_badged,
                }),
            }),
        ),
        None => s1,
    };
    s2.update(
        parent,
        (cte_t {
            capability: s2[parent].capability,
            mdb: (MdbNode {
                prev: s2[parent].mdb.prev,
                next: Some(slot as usize),
                revocable: s2[parent].mdb.revocable,
                first_badged: s2[parent].mdb.first_badged,
            }),
        }),
    )
}

/// Places a brand-new capability into the empty slot `slot` as the immediate
/// derivation child of `parent`: always revocable and first-badged, with the
/// parent's previous immediate child preserved as its successor. Link
/// symmetry is preserved.
pub fn insert_new_cap(cs: &mut CapSpace, parent: usize, slot: usize, capability: &Capability)
    requires
        old(cs).wf(),
        parent < old(cs).num_slots(),
        slot < old(cs).num_slots(),
        parent != slot,
        old(cs).slot_empty(slot as int),
        cap_ok(*capability, old(cs).num_slots()),
        !(*capability is Null),
        !(old(cs).cap_at(parent as int) is Null),
    ensures
        final(cs).wf(),
        final(cs).num_slots() == old(cs).num_slots(),
        final(cs).slots@ == insert_new_cap_spec(
            old(cs).slots@,
            parent as int,
            slot as int,
            *capability,
        ),
{
    let arena_len = cs.slots.len();
    let next = cs.slots[parent].mdb.next;
    cs.slots[slot] = cte_t {
        capability: *capability,
        mdb: MdbNode { prev: Some(parent), next, revocable: true, first_badged: true },
    };
    match next {
        Some(z) => {
            proof {
                assert(old(cs).next_of(parent as int) == Some(z));
            }
            cs.slots[z].mdb.prev = Some(slot);
        },
        None => {},
    }
    cs.slots[parent].mdb.next = Some(slot);
    proof {
        assert(old(cs).num_slots() == arena_len);
        lemma_insert_new_cap_wf(*old(cs), *cs, parent as int, slot as int, *capability);
    }
}

#[verifier::rlimit(100)]
#[verifier::spinoff_prover]
proof fn lemma_insert_new_cap_wf(
    pre: CapSpace,
    post: CapSpace,
    parent: int,
    slot: int,
    capability: Capability,
)
    requires
        pre.wf(),
        pre.num_slots() <= usize::MAX,
        0 <= parent < pre.num_slots(),
        0 <= slot < pre.num_slots(),
        parent != slot,
        pre.slot_empty(slot),
        cap_ok(capability, pre.num_slots()),
        !(capability is Null),
        !(pre.cap_at(parent) is Null),
        post.slots@ == insert_new_cap_spec(pre.slots@, parent, slot, capability),
    ensures
        post.wf(),
{
    let n = pre.num_slots();
    assert(post.num_slots() == n);
    assert forall|i: int| 0 <= i < n implies cap_ok(#[trigger] post.cap_at(i), n) by {
        assert(cap_ok(pre.cap_at(i), n));
    }
    assert forall|i: int|
        0 <= i < n implies ((#[trigger] post.cap_at(i)) is Null ==> post.slot_at(i).mdb
        == MdbNode::empty_spec()) by {
        assert(pre.cap_at(i) is Null ==> pre.slot_at(i).mdb == MdbNode::empty_spec());
        match pre.next_of(parent) {
            Some(z) => {
                assert(z < n && pre.prev_of(z as int) == Some(parent as usize));
                assert(pre.cap_at(z as int) is Null ==> pre.slot_at(z as int).mdb
                    == MdbNode::empty_spec());
            },
            None => {},
        }
    }
    assert(pre.prev_of(slot) is None && pre.next_of(slot) is None);
    match pre.next_of(parent) {
        Some(z) => {
            assert(z < n && pre.prev_of(z as int) == Some(parent as usize));
        },
        None => {},
    }
    assert forall|i: int|
        #![trigger post.next_of(i)]
        #![trigger post.prev_of(i)]
        0 <= i < n implies {
            &&& (post.next_of(i) matches Some(j) ==> j < n && post.prev_of(j as int) == Some(
                i as usize,
            ))
            &&& (post.prev_of(i) matches Some(j) ==> j < n && post.next_of(j as int) == Some(
                i as usize,
            ))
        } by {
        match pre.next_of(i) {
            Some(j) => {
                assert(j < n && pre.prev_of(j as int) == Some(i as usize));
            },
            None => {},
        }
        match pre.prev_of(i) {
            Some(j) => {
                assert(j < n && pre.next_of(j as int) == Some(i as usize));
            },
            None => {},
        }
        match pre.prev_of(parent) {
            Some(j) => {
                assert(j < n && pre.next_of(j as int) == Some(parent as usize));
            },
            None => {},
        }
        match pre.next_of(parent) {
            Some(z) => {
                match pre.next_of(z as int) {
                    Some(j) => {
                        assert(j < n && pre.prev_of(j as int) == Some(z));
                    },
                    None => {},
                }
            },
            None => {},
        }
    }
}

/// Result of deriving a capability: a status and the derived capability,
/// null on failure.
#[derive(Clone, Copy, PartialEq, Eq, Structural, Debug)]
pub struct deriveCap_ret {
    pub status: Exception,
    pub capability: Capability,
}

impl CapSpace {
    /// The derivation parent predicate: slot `i` is the parent of slot `j`
    /// when `i` is revocable, covers `j`'s region, and, for badged endpoint
    /// or notification capabilities, either carries the unbadged trunk badge
    /// or the same badge as `j` with `j` not itself a fresh badge boundary.
    pub open spec fn is_mdb_parent_of_spec(&self, i: int, j: int) -> bool {
        let a = self.slot_at(i);
        let b = self.slot_at(j);
        &&& a.mdb.revocable
        &&& same_region_as_spec(a.capability, b.capability)
        &&& match a.capability {
            Capability::Endpoint { badge, .. } => {
                badge == 0 || (badge == badge_of(b.capability) && !b.mdb.first_badged)
            },
            Capability::Notification { badge, .. } => {
                badge == 0 || (badge == badge_of(b.capability) && !b.mdb.first_badged)
            },
            _ => true,
        }
    }

    /// Whether the capability in `slot` is the derivation parent of the one
    /// in `next`.
    pub fn is_mdb_parent_of(&self, slot: usize, next: usize) -> (r: bool)
        requires
            self.wf(),
            slot < self.num_slots(),
            next < self.num_slots(),
        ensures
            r == self.is_mdb_parent_of_spec(slot as int, next as int),
    {
        let a = self.slots[slot];
        if !a.mdb.revocable {
            return false;
        }
        let b = self.slots[next];
        proof {
            assert(cap_ok(self.cap_at(slot as int), self.num_slots()));
            assert(cap_ok(self.cap_at(next as int), self.num_slots()));
        }
        if !same_region_as(&a.capability, &b.capability) {
            return false;
        }
        match a.capability {
            Capability::Endpoint { badge, .. } => {
                if badge == 0 {
                    true
                } else {
                    match b.capability {
                        Capability::Endpoint { badge: b2, .. } => {
                            badge == b2 && !b.mdb.first_badged
                        },
                        _ => false,
                    }
                }
            },
            Capability::Notification { badge, .. } => {
                if badge == 0 {
                    true
                } else {
                    match b.capability {
                        Capability::Notification { badge: b2, .. } => {
                            badge == b2 && !b.mdb.first_badged
                        },
                        _ => false,
                    }
                }
            },
            _ => true,
        }
    }

    /// Whether the slot's immediate successor is a derivation child of it.
    pub open spec fn has_child_spec(&self, i: int) -> bool {
        match self.next_of(i) {
            Some(j) => self.is_mdb_parent_of_spec(i, j as int),
            None => false,
        }
    }

    /// Fails with a recoverable error when the slot still has a derivation
    /// child; used to gate deriving from untyped capabilities.
    pub fn ensure_no_children(&self, slot: usize) -> (r: Exception)
        requires
            self.wf(),
            slot < self.num_slots(),
        ensures
            r == (if self.has_child_spec(slot as int) {
                Exception::SyscallError
            } else {
                Exception::NoError
            }),
    {
        match self.slots[slot].mdb.next {
            Some(next) => {
                proof {
                    assert(self.next_of(slot as int) == Some(next));
                }
                if self.is_mdb_parent_of(slot, next) {
                    Exception::SyscallError
                } else {
                    Exception::NoError
                }
            },
            None => Exception::NoError,
        }
    }

    /// Whether the capability in slot `i` is the last extant reference to
    /// its object: neither its predecessor nor its successor names the same
    /// object.
    pub open spec fn is_final_cap_spec(&self, i: int) -> bool {
        let mdb = self.slot_at(i).mdb;
        let prev_is_same = match mdb.prev {
            Some(p) => same_object_as_spec(self.cap_at(p as int), self.cap_at(i)),
            None => false,
        };
        &&& !prev_is_same
        &&& match mdb.next {
            Some(nx) => !same_object_as_spec(self.cap_at(i), self.cap_at(nx as int)),
            None => true,
        }
    }

    /// Whether the capability in `slot` is the last extant reference to its
    /// object.
    pub fn is_final_cap(&self, slot: usize) -> (r: bool)
        requires
            self.wf(),
            slot < self.num_slots(),
        ensures
            r == self.is_final_cap_spec(slot as int),
    {
        let mdb = self.slots[slot].mdb;
        proof {
            assert(cap_ok(self.cap_at(slot as int), self.num_slots()));
            match self.prev_of(slot as int) {
                Some(p) => {
                    assert(p < self.num_slots() && self.next_of(p as int) == Some(
                        slot,
                    ));
                    assert(cap_ok(self.cap_at(p as int), self.num_slots()));
                },
                None => {},
            }
            match self.next_of(slot as int) {
                Some(nx) => {
                    assert(nx < self.num_slots() && self.prev_of(nx as int) == Some(
                        slot,
                    ));
                    assert(cap_ok(self.cap_at(nx as int), self.num_slots()));
                },
                None => {},
            }
        }
        let prev_is_same_obj = match mdb.prev {
            Some(p) => same_object_as(&self.slots[p].capability, &self.slots[slot].capability),
            None => false,
        };
        if prev_is_same_obj {
            return false;
        }
        match mdb.next {
            Some(nx) => !same_object_as(&self.slots[slot].capability, &self.slots[nx].capability),
            None => true,
        }
    }

    /// Whether deleting the capability in slot `i` can recurse arbitrarily
    /// deep: it is a live final reference to a thread, zombie or capability
    /// table.
    pub open spec fn is_long_running_delete_spec(&self, i: int) -> bool {
        &&& !(self.cap_at(i) is Null)
        &&& self.is_final_cap_spec(i)
        &&& (self.cap_at(i) is Thread || self.cap_at(i) is Zombie || self.cap_at(i) is CNode)
    }

    /// Whether deleting the capability in `slot` can recurse arbitrarily
    /// deep; the system-call layer uses this to check for interrupts before
    /// starting.
    pub fn is_long_running_delete(&self, slot: usize) -> (r: bool)
        requires
            self.wf(),
            slot < self.num_slots(),
        ensures
            r == self.is_long_running_delete_spec(slot as int),
    {
        let tag = self.slots[slot].capability.get_tag();
        if tag == CapTag::Null || !self.is_final_cap(slot) {
            return false;
        }
        tag == CapTag::Thread || tag == CapTag::Zombie || tag == CapTag::CNode
    }

    /// The derive rule: zombie, reply and irq-control capabilities may never
    /// be derived; an untyped capability only while it has no derivation
    /// child; every other kind passes through, architecture kinds by the
    /// architecture rule.
    pub open spec fn derive_cap_spec(&self, slot: int, capability: Capability) -> deriveCap_ret {
        if capability.is_arch_cap_spec() {
            arch_derive_cap_spec(capability)
        } else {
            match capability {
                Capability::Zombie { .. } => {
                    (deriveCap_ret { status: Exception::SyscallError, capability: Capability::Null })
                },
                Capability::Reply { .. } => {
                    (deriveCap_ret { status: Exception::SyscallError, capability: Capability::Null })
                },
                Capability::IrqControl => {
                    (deriveCap_ret { status: Exception::SyscallError, capability: Capability::Null })
                },
                Capability::Untyped { .. } => {
                    if self.has_child_spec(slot) {
                        (deriveCap_ret {
                            status: Exception::SyscallError,
                            capability: Capability::Null,
                        })
                    } else {
                        (deriveCap_ret { status: Exception::NoError, capability })
                    }
                },
                _ => (deriveCap_ret { status: Exception::NoError, capability }),
            }
        }
    }

    /// Derives a capability from the one in `slot`.
    pub fn derive_cap(&self, slot: usize, capability: &Capability) -> (r: deriveCap_ret)
        requires
            self.wf(),
            slot < self.num_slots(),
        ensures
            r == self.derive_cap_spec(slot as int, *capability),
    {
        if capability.is_arch_cap() {
            return arch_derive_cap(capability);
        }
        match capability {
            Capability::Zombie { .. } => {
                deriveCap_ret { status: Exception::SyscallError, capability: Capability::Null }
            },
            Capability::Reply { .. } => {
                deriveCap_ret { status: Exception::SyscallError, capability: Capability::Null }
            },
            Capability::IrqControl => {
                deriveCap_ret { status: Exception::SyscallError, capability: Capability::Null }
            },
            Capability::Untyped { .. } => {
                let status = self.ensure_no_children(slot);
                if status != Exception::NoError {
                    deriveCap_ret { status, capability: Capability::Null }
                } else {
                    deriveCap_ret { status: Exception::NoError, capability: *capability }
                }
            },
            _ => deriveCap_ret { status: Exception::NoError, capability: *capability },
        }
    }
}

/// Law: in a well-formed arena every non-null `prev`/`next` link is
/// reciprocated — the pointed-to slot lies inside the arena and its opposite
/// link points straight back. Every insert, move, swap and delete operation
/// of this crate ensures `wf`, so this holds after each of them.
pub proof fn lemma_link_symmetry(cs: CapSpace, i: int)
    requires
        cs.wf(),
        0 <= i < cs.num_slots(),
    ensures
        cs.next_of(i) matches Some(j) ==> j < cs.num_slots() && cs.prev_of(j as int) == Some(
            i as usize,
        ),
        cs.prev_of(i) matches Some(j) ==> j < cs.num_slots() && cs.next_of(j as int) == Some(
            i as usize,
        ),
{
}

/// Law: inserting an untyped capability derived from an untyped source over
/// the identical block always leaves the source capability's free index at
/// its maximum; inserting anything else, or an untyped capability over a
/// different block, leaves the source capability untouched.
pub proof fn lemma_insert_exhausts_source(s: Seq<cte_t>, new_cap: Capability, src: int, dest: int)
    requires
        0 <= src < s.len(),
        0 <= dest < s.len(),
        src != dest,
        s[src].mdb.next matches Some(z) ==> z < s.len(),
    ensures
        ({
            let result = cte_insert_spec(s, new_cap, src, dest);
            match (s[src].capability, new_cap) {
                (
                    Capability::Untyped { ptr: p1, block_size: b1, free_index: _ },
                    Capability::Untyped { ptr: p2, block_size: b2, free_index: _ },
                ) => {
                    if p1 == p2 && b1 == b2 {
                        result[src].capability == (Capability::Untyped {
                            ptr: p1,
                            block_size: b1,
                            free_index: max_free_index_of(b1),
                        })
                    } else {
                        result[src].capability == s[src].capability
                    }
                },
                _ => result[src].capability == s[src].capability,
            }
        }),
{
    let result = cte_insert_spec(s, new_cap, src, dest);
    assert(result[src].capability == set_untyped_cap_as_full_spec(s[src].capability, new_cap));
}

} // verus!
