use cspace::capability::{max_free_index, Capability};
use cspace::cte::{cte_insert, cte_move, cte_swap, cte_t, insert_new_cap, CapSpace, MdbNode};
use cspace::exception::Exception;

fn empty_space(n: usize) -> CapSpace {
    let mut slots = Vec::new();
    for _ in 0..n {
        slots.push(cte_t::empty());
    }
    CapSpace { slots }
}

fn node(prev: Option<usize>, next: Option<usize>, revocable: bool, first_badged: bool) -> MdbNode {
    MdbNode { prev, next, revocable, first_badged }
}

/// Checks the reciprocal-link law over the whole arena.
fn links_are_symmetric(cs: &CapSpace) -> bool {
    let n = cs.slots.len();
    for i in 0..n {
        if let Some(j) = cs.slots[i].mdb.next {
            if j >= n || cs.slots[j].mdb.prev != Some(i) {
                return false;
            }
        }
        if let Some(j) = cs.slots[i].mdb.prev {
            if j >= n || cs.slots[j].mdb.next != Some(i) {
                return false;
            }
        }
    }
    true
}

#[test]
fn insert_links_child_after_source() {
    let mut cs = empty_space(4);
    let src_cap = Capability::Endpoint { ptr: 0x100, badge: 0 };
    cs.slots[0] = cte_t { capability: src_cap, mdb: node(None, None, true, false) };
    let minted = Capability::Endpoint { ptr: 0x100, badge: 7 };
    cte_insert(&mut cs, &minted, 0, 1);
    assert_eq!(cs.slots[0].mdb.next, Some(1));
    assert_eq!(cs.slots[1].mdb.prev, Some(0));
    assert_eq!(cs.slots[1].capability, minted);
    // a freshly badged endpoint is a revocable leaf and a badge boundary
    assert!(cs.slots[1].mdb.revocable);
    assert!(cs.slots[1].mdb.first_badged);
    assert!(links_are_symmetric(&cs));
}

#[test]
fn insert_preserves_existing_successor() {
    let mut cs = empty_space(4);
    let parent = Capability::Endpoint { ptr: 0x100, badge: 0 };
    let old_child = Capability::Endpoint { ptr: 0x100, badge: 1 };
    cs.slots[0] = cte_t { capability: parent, mdb: node(None, Some(2), true, false) };
    cs.slots[2] = cte_t { capability: old_child, mdb: node(Some(0), None, true, true) };
    let new_child = Capability::Endpoint { ptr: 0x100, badge: 2 };
    cte_insert(&mut cs, &new_child, 0, 1);
    // the new slot sits between the source and its former successor
    assert_eq!(cs.slots[0].mdb.next, Some(1));
    assert_eq!(cs.slots[1].mdb.prev, Some(0));
    assert_eq!(cs.slots[1].mdb.next, Some(2));
    assert_eq!(cs.slots[2].mdb.prev, Some(1));
    assert!(links_are_symmetric(&cs));
}

#[test]
fn insert_exhausts_shared_untyped_block() {
    let mut cs = empty_space(4);
    let src = Capability::Untyped { ptr: 0x1000, block_size: 10, free_index: 3 };
    cs.slots[0] = cte_t { capability: src, mdb: node(None, None, true, false) };
    let derived = Capability::Untyped { ptr: 0x1000, block_size: 10, free_index: 0 };
    cte_insert(&mut cs, &derived, 0, 1);
    // the source may no longer carve space out of the shared block
    assert_eq!(
        cs.slots[0].capability,
        Capability::Untyped { ptr: 0x1000, block_size: 10, free_index: max_free_index(10) },
    );
}

#[test]
fn insert_into_distinct_region_leaves_source_untouched() {
    let mut cs = empty_space(4);
    let src = Capability::Untyped { ptr: 0x1000, block_size: 10, free_index: 3 };
    cs.slots[0] = cte_t { capability: src, mdb: node(None, None, true, false) };
    let other = Capability::Untyped { ptr: 0x2000, block_size: 10, free_index: 0 };
    cte_insert(&mut cs, &other, 0, 1);
    assert_eq!(cs.slots[0].capability, src);
}

#[test]
fn move_relocates_the_whole_position() {
    let mut cs = empty_space(5);
    let a = Capability::Thread { ptr: 0x10 };
    let b = Capability::Thread { ptr: 0x20 };
    let c = Capability::Thread { ptr: 0x30 };
    cs.slots[0] = cte_t { capability: a, mdb: node(None, Some(1), false, false) };
    cs.slots[1] = cte_t { capability: b, mdb: node(Some(0), Some(2), true, true) };
    cs.slots[2] = cte_t { capability: c, mdb: node(Some(1), None, false, false) };
    cte_move(&mut cs, &b, 1, 4);
    // the destination takes the source's neighbours, flags and capability
    assert_eq!(cs.slots[0].mdb.next, Some(4));
    assert_eq!(cs.slots[4].mdb.prev, Some(0));
    assert_eq!(cs.slots[4].mdb.next, Some(2));
    assert_eq!(cs.slots[2].mdb.prev, Some(4));
    assert_eq!(cs.slots[4].capability, b);
    assert!(cs.slots[4].mdb.revocable);
    assert!(cs.slots[4].mdb.first_badged);
    // the source is empty and unlinked
    assert_eq!(cs.slots[1], cte_t::empty());
    assert!(links_are_symmetric(&cs));
}

#[test]
fn swap_exchanges_positions_with_isolated_slot() {
    // P -> A -> Q, with B isolated
    let mut cs = empty_space(4);
    let p = Capability::Thread { ptr: 0x1 };
    let x = Capability::Thread { ptr: 0x2 };
    let q = Capability::Thread { ptr: 0x3 };
    let y = Capability::Thread { ptr: 0x4 };
    cs.slots[0] = cte_t { capability: p, mdb: node(None, Some(1), false, false) };
    cs.slots[1] = cte_t { capability: x, mdb: node(Some(0), Some(2), false, false) };
    cs.slots[2] = cte_t { capability: q, mdb: node(Some(1), None, false, false) };
    cs.slots[3] = cte_t { capability: y, mdb: node(None, None, false, false) };
    cte_swap(&mut cs, &x, 1, &y, 3);
    // P -> B -> Q, with B holding X and A holding Y, isolated
    assert_eq!(cs.slots[0].mdb.next, Some(3));
    assert_eq!(cs.slots[3].mdb.prev, Some(0));
    assert_eq!(cs.slots[3].mdb.next, Some(2));
    assert_eq!(cs.slots[2].mdb.prev, Some(3));
    assert_eq!(cs.slots[3].capability, x);
    assert_eq!(cs.slots[1].capability, y);
    assert_eq!(cs.slots[1].mdb.prev, None);
    assert_eq!(cs.slots[1].mdb.next, None);
    assert!(links_are_symmetric(&cs));
}

#[test]
fn swap_handles_adjacent_slots() {
    // P -> A -> B -> Q; swapping A and B must give P -> B -> A -> Q
    let mut cs = empty_space(4);
    let caps: Vec<Capability> = (0..4).map(|i| Capability::Thread { ptr: 0x10 + i }).collect();
    cs.slots[0] = cte_t { capability: caps[0], mdb: node(None, Some(1), false, false) };
    cs.slots[1] = cte_t { capability: caps[1], mdb: node(Some(0), Some(2), false, false) };
    cs.slots[2] = cte_t { capability: caps[2], mdb: node(Some(1), Some(3), false, false) };
    cs.slots[3] = cte_t { capability: caps[3], mdb: node(Some(2), None, false, false) };
    cte_swap(&mut cs, &caps[1], 1, &caps[2], 2);
    assert_eq!(cs.slots[0].mdb.next, Some(2));
    assert_eq!(cs.slots[2].mdb.prev, Some(0));
    assert_eq!(cs.slots[2].mdb.next, Some(1));
    assert_eq!(cs.slots[1].mdb.prev, Some(2));
    assert_eq!(cs.slots[1].mdb.next, Some(3));
    assert_eq!(cs.slots[3].mdb.prev, Some(1));
    assert_eq!(cs.slots[2].capability, caps[1]);
    assert_eq!(cs.slots[1].capability, caps[2]);
    assert!(links_are_symmetric(&cs));
}

#[test]
fn insert_new_cap_places_immediate_child() {
    let mut cs = empty_space(4);
    let parent_cap = Capability::Endpoint { ptr: 0x100, badge: 0 };
    cs.slots[0] = cte_t { capability: parent_cap, mdb: node(None, Some(2), true, false) };
    cs.slots[2] = cte_t {
        capability: Capability::Endpoint { ptr: 0x100, badge: 1 },
        mdb: node(Some(0), None, true, true),
    };
    let fresh = Capability::Endpoint { ptr: 0x100, badge: 0 };
    insert_new_cap(&mut cs, 0, 1, &fresh);
    // the new slot is the parent's immediate child, revocable and first-badged
    assert_eq!(cs.slots[0].mdb.next, Some(1));
    assert_eq!(cs.slots[1].mdb.prev, Some(0));
    assert_eq!(cs.slots[1].mdb.next, Some(2));
    assert_eq!(cs.slots[2].mdb.prev, Some(1));
    assert!(cs.slots[1].mdb.revocable);
    assert!(cs.slots[1].mdb.first_badged);
    assert!(links_are_symmetric(&cs));
}

#[test]
fn insert_new_cap_then_source_has_children() {
    let mut cs = empty_space(3);
    let parent_cap = Capability::Endpoint { ptr: 0x100, badge: 0 };
    cs.slots[0] = cte_t { capability: parent_cap, mdb: node(None, None, true, false) };
    let fresh = Capability::Endpoint { ptr: 0x100, badge: 0 };
    insert_new_cap(&mut cs, 0, 1, &fresh);
    assert!(cs.slots[1].mdb.revocable);
    assert!(cs.slots[1].mdb.first_badged);
    // the source now has a derivation child, so deriving from it is refused
    assert_eq!(cs.ensure_no_children(0), Exception::SyscallError);
    assert!(cs.is_mdb_parent_of(0, 1));
}

#[test]
fn ensure_no_children_passes_for_leaf() {
    let mut cs = empty_space(3);
    cs.slots[0] = cte_t {
        capability: Capability::Endpoint { ptr: 0x100, badge: 0 },
        mdb: node(None, None, true, false),
    };
    assert_eq!(cs.ensure_no_children(0), Exception::NoError);
    // a successor that is not derivation-related is no child
    cs.slots[0].mdb.next = Some(1);
    cs.slots[1] = cte_t {
        capability: Capability::Endpoint { ptr: 0x999, badge: 0 },
        mdb: node(Some(0), None, true, false),
    };
    assert_eq!(cs.ensure_no_children(0), Exception::NoError);
}

#[test]
fn badged_sibling_is_not_a_child_of_badged_parent() {
    let mut cs = empty_space(3);
    // badge 5 parent, badge 5 successor that is itself a badge boundary
    cs.slots[0] = cte_t {
        capability: Capability::Endpoint { ptr: 0x100, badge: 5 },
        mdb: node(None, Some(1), true, true),
    };
    cs.slots[1] = cte_t {
        capability: Capability::Endpoint { ptr: 0x100, badge: 5 },
        mdb: node(Some(0), None, true, true),
    };
    assert!(!cs.is_mdb_parent_of(0, 1));
    // without the fresh badge boundary it is a child
    cs.slots[1].mdb.first_badged = false;
    assert!(cs.is_mdb_parent_of(0, 1));
}

#[test]
fn final_capability_detection() {
    let mut cs = empty_space(3);
    let ep = Capability::Endpoint { ptr: 0x100, badge: 0 };
    cs.slots[0] = cte_t { capability: ep, mdb: node(None, Some(1), true, false) };
    cs.slots[1] = cte_t { capability: ep, mdb: node(Some(0), None, true, false) };
    // two references to the same endpoint: neither is final
    assert!(!cs.is_final_cap(0));
    assert!(!cs.is_final_cap(1));
    // distinct objects: each is final
    cs.slots[1].capability = Capability::Endpoint { ptr: 0x200, badge: 0 };
    assert!(cs.is_final_cap(0));
    assert!(cs.is_final_cap(1));
}

#[test]
fn long_running_delete_kinds() {
    let mut cs = empty_space(3);
    cs.slots[0] = cte_t {
        capability: Capability::Thread { ptr: 0x10 },
        mdb: node(None, None, true, false),
    };
    cs.slots[1] = cte_t {
        capability: Capability::Endpoint { ptr: 0x100, badge: 0 },
        mdb: node(None, None, true, false),
    };
    assert!(cs.is_long_running_delete(0));
    assert!(!cs.is_long_running_delete(1));
    assert!(!cs.is_long_running_delete(2));
}

#[test]
fn derive_cap_rules() {
    let mut cs = empty_space(3);
    cs.slots[0] = cte_t {
        capability: Capability::Untyped { ptr: 0x1000, block_size: 10, free_index: 0 },
        mdb: node(None, None, true, false),
    };
    // an untyped capability with no children derives as itself
    let ut = Capability::Untyped { ptr: 0x1000, block_size: 10, free_index: 0 };
    let r = cs.derive_cap(0, &ut);
    assert_eq!(r.status, Exception::NoError);
    assert_eq!(r.capability, ut);
    // zombies, replies and irq-control can never be derived
    let r = cs.derive_cap(0, &Capability::Zombie { ptr: 1, count: 1, zombie_bits: 4 });
    assert_eq!(r.status, Exception::SyscallError);
    assert_eq!(r.capability, Capability::Null);
    let r = cs.derive_cap(0, &Capability::Reply { ptr: 2 });
    assert_eq!(r.status, Exception::SyscallError);
    let r = cs.derive_cap(0, &Capability::IrqControl);
    assert_eq!(r.status, Exception::SyscallError);
    // ordinary kinds pass through
    let ep = Capability::Endpoint { ptr: 0x100, badge: 3 };
    let r = cs.derive_cap(0, &ep);
    assert_eq!(r.status, Exception::NoError);
    assert_eq!(r.capability, ep);
}

#[test]
fn derive_untyped_with_child_is_refused() {
    let mut cs = empty_space(3);
    let parent = Capability::Untyped { ptr: 0x1000, block_size: 10, free_index: 0 };
    cs.slots[0] = cte_t { capability: parent, mdb: node(None, Some(1), true, false) };
    cs.slots[1] = cte_t {
        capability: Capability::Endpoint { ptr: 0x1100, badge: 0 },
        mdb: node(Some(0), None, true, true),
    };
    let r = cs.derive_cap(0, &parent);
    assert_eq!(r.status, Exception::SyscallError);
    assert_eq!(r.capability, Capability::Null);
}
