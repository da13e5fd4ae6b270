use cspace::capability::{CapTag, Capability};
use cspace::cte::{cte_t, CapSpace, MdbNode};
use cspace::deletion::{FinaliseCapRet, KernelHooks};
use cspace::exception::Exception;

fn empty_space(n: usize) -> CapSpace {
    let mut slots = Vec::new();
    for _ in 0..n {
        slots.push(cte_t::empty());
    }
    CapSpace { slots }
}

fn node(prev: Option<usize>, next: Option<usize>, revocable: bool, first_badged: bool) -> MdbNode {
    MdbNode { prev, next, revocable, first_badged }
}

fn links_are_symmetric(cs: &CapSpace) -> bool {
    let n = cs.slots.len();
    for i in 0..n {
        if let Some(j) = cs.slots[i].mdb.next {
            if j >= n || cs.slots[j].mdb.prev != Some(i) {
                return false;
            }
        }
        if let Some(j) = cs.slots[i].mdb.prev {
            if j >= n || cs.slots[j].mdb.next != Some(i) {
                return false;
            }
        }
    }
    true
}

/// A test stand-in for the embedding kernel: simple capabilities finalise to
/// nothing; capability tables finalise to a zombie covering their slots; a
/// zombie finalises to itself. Deletions are counted, and preemption can be
/// scheduled after a number of checks.
struct TestHooks {
    deletions: usize,
    preempt_after: Option<usize>,
    preemption_checks: usize,
}

impl TestHooks {
    fn new() -> TestHooks {
        TestHooks { deletions: 0, preempt_after: None, preemption_checks: 0 }
    }
}

impl KernelHooks for TestHooks {
    fn finalise_cap(
        &mut self,
        capability: &Capability,
        is_final: bool,
        _immediate: bool,
    ) -> FinaliseCapRet {
        let remainder = match capability {
            Capability::CNode { ptr, radix, .. } if is_final => Capability::Zombie {
                ptr: *ptr,
                count: 1usize << radix,
                zombie_bits: *radix,
            },
            Capability::Zombie { .. } => *capability,
            _ => Capability::Null,
        };
        FinaliseCapRet { remainder, cleanup_info: Capability::Null }
    }

    fn post_cap_deletion(&mut self, _cleanup: &Capability) {
        self.deletions += 1;
    }

    fn preemption_point(&mut self) -> Exception {
        self.preemption_checks += 1;
        match self.preempt_after {
            Some(k) if self.preemption_checks > k => Exception::Preempted,
            _ => Exception::NoError,
        }
    }
}

#[test]
fn delete_one_empties_and_unsplices() {
    let mut cs = empty_space(4);
    let ep = Capability::Endpoint { ptr: 0x100, badge: 0 };
    cs.slots[0] = cte_t { capability: ep, mdb: node(None, Some(1), true, false) };
    cs.slots[1] = cte_t {
        capability: Capability::Endpoint { ptr: 0x100, badge: 1 },
        mdb: node(Some(0), Some(2), true, true),
    };
    cs.slots[2] = cte_t {
        capability: Capability::Endpoint { ptr: 0x100, badge: 2 },
        mdb: node(Some(1), None, true, true),
    };
    let mut hooks = TestHooks::new();
    let r = cs.delete_one(&mut hooks, 1);
    assert_eq!(r, Exception::NoError);
    assert_eq!(cs.slots[1], cte_t::empty());
    assert_eq!(cs.slots[0].mdb.next, Some(2));
    assert_eq!(cs.slots[2].mdb.prev, Some(0));
    assert_eq!(hooks.deletions, 1);
    assert!(links_are_symmetric(&cs));
}

#[test]
fn delete_one_propagates_first_badged() {
    let mut cs = empty_space(3);
    cs.slots[0] = cte_t {
        capability: Capability::Endpoint { ptr: 0x100, badge: 1 },
        mdb: node(None, Some(1), true, true),
    };
    cs.slots[1] = cte_t {
        capability: Capability::Endpoint { ptr: 0x100, badge: 1 },
        mdb: node(Some(0), None, true, false),
    };
    let mut hooks = TestHooks::new();
    assert_eq!(cs.delete_one(&mut hooks, 0), Exception::NoError);
    // the badge boundary moves onto the successor
    assert!(cs.slots[1].mdb.first_badged);
    assert_eq!(cs.slots[1].mdb.prev, None);
}

#[test]
fn delete_all_exposed_clears_slot() {
    let mut cs = empty_space(2);
    cs.slots[0] = cte_t {
        capability: Capability::Endpoint { ptr: 0x100, badge: 0 },
        mdb: node(None, None, true, false),
    };
    let mut hooks = TestHooks::new();
    let r = cs.delete_all(&mut hooks, 0, true, 64);
    assert_eq!(r, Exception::NoError);
    assert_eq!(cs.slots[0].capability.get_tag(), CapTag::Null);
}

#[test]
fn non_immediate_teardown_detects_cyclic_zombie() {
    // a zombie that already points at its own slot, with more than one slot
    // remaining: non-immediate teardown must stop with the cyclic zombie in
    // place, not loop forever
    let mut cs = empty_space(4);
    cs.slots[0] = cte_t {
        capability: Capability::Zombie { ptr: 0, count: 2, zombie_bits: 1 },
        mdb: node(None, None, false, false),
    };
    let mut hooks = TestHooks::new();
    let r = cs.delete_all(&mut hooks, 0, false, 64);
    assert_eq!(r, Exception::NoError);
    match cs.slots[0].capability {
        Capability::Zombie { ptr, .. } => assert_eq!(ptr, 0),
        _ => panic!("the cyclic zombie must remain in the slot"),
    }
}

#[test]
fn non_immediate_teardown_swaps_toward_cycle() {
    // a zombie pointing elsewhere is swapped with its target, producing the
    // cyclic state at the target slot; the loop then stops
    let mut cs = empty_space(4);
    cs.slots[2] = cte_t {
        capability: Capability::Zombie { ptr: 1, count: 2, zombie_bits: 1 },
        mdb: node(None, None, false, false),
    };
    cs.slots[1] = cte_t {
        capability: Capability::Thread { ptr: 0x77 },
        mdb: node(None, None, false, false),
    };
    let mut hooks = TestHooks::new();
    let r = cs.delete_all(&mut hooks, 2, false, 64);
    assert_eq!(r, Exception::NoError);
    // the zombie moved to slot 1, where it is cyclic
    match cs.slots[1].capability {
        Capability::Zombie { ptr, count, .. } => {
            assert_eq!(ptr, 1);
            assert_eq!(count, 2);
        },
        _ => panic!("the zombie must sit in its own target slot"),
    }
    assert!(links_are_symmetric(&cs));
}

#[test]
fn revoke_deletes_derived_children() {
    let mut cs = empty_space(5);
    let trunk = Capability::Endpoint { ptr: 0x100, badge: 0 };
    cs.slots[0] = cte_t { capability: trunk, mdb: node(None, Some(1), true, false) };
    cs.slots[1] = cte_t {
        capability: Capability::Endpoint { ptr: 0x100, badge: 1 },
        mdb: node(Some(0), Some(2), true, true),
    };
    cs.slots[2] = cte_t {
        capability: Capability::Endpoint { ptr: 0x100, badge: 2 },
        mdb: node(Some(1), Some(3), true, true),
    };
    // an unrelated capability after the children
    cs.slots[3] = cte_t {
        capability: Capability::Thread { ptr: 0x900 },
        mdb: node(Some(2), None, true, false),
    };
    let mut hooks = TestHooks::new();
    let r = cs.revoke(&mut hooks, 0, 64);
    assert_eq!(r, Exception::NoError);
    assert_eq!(cs.slots[1].capability.get_tag(), CapTag::Null);
    assert_eq!(cs.slots[2].capability.get_tag(), CapTag::Null);
    // the unrelated successor survives and the trunk remains
    assert_eq!(cs.slots[3].capability.get_tag(), CapTag::Thread);
    assert_eq!(cs.slots[0].capability, trunk);
    assert_eq!(cs.slots[0].mdb.next, Some(3));
    assert_eq!(cs.slots[3].mdb.prev, Some(0));
    assert_eq!(hooks.deletions, 2);
    assert!(links_are_symmetric(&cs));
}

#[test]
fn revoke_tears_down_capability_table() {
    // a table of 2 slots at indices 2..4, holding one live endpoint; its
    // table capability is a derivation child of an untyped block
    let mut cs = empty_space(6);
    let ut = Capability::Untyped { ptr: 0, block_size: 12, free_index: 0 };
    let table = Capability::CNode { ptr: 2, radix: 1, guard: 0, guard_size: 0 };
    cs.slots[0] = cte_t { capability: ut, mdb: node(None, Some(1), true, false) };
    cs.slots[1] = cte_t { capability: table, mdb: node(Some(0), Some(3), true, true) };
    cs.slots[3] = cte_t {
        capability: Capability::Endpoint { ptr: 0x500, badge: 0 },
        mdb: node(Some(1), None, true, false),
    };
    let mut hooks = TestHooks::new();
    let r = cs.revoke(&mut hooks, 0, 64);
    assert_eq!(r, Exception::NoError);
    // the table capability became a zombie, its slots were cleared one by
    // one, and the zombie itself was finally removed
    assert_eq!(cs.slots[1].capability.get_tag(), CapTag::Null);
    assert_eq!(cs.slots[3].capability.get_tag(), CapTag::Null);
    assert_eq!(cs.slots[0].mdb.next, None);
    assert!(links_are_symmetric(&cs));
}

#[test]
fn preemption_interrupts_and_resumes() {
    let mut cs = empty_space(5);
    let trunk = Capability::Endpoint { ptr: 0x100, badge: 0 };
    cs.slots[0] = cte_t { capability: trunk, mdb: node(None, Some(1), true, false) };
    cs.slots[1] = cte_t {
        capability: Capability::Endpoint { ptr: 0x100, badge: 1 },
        mdb: node(Some(0), Some(2), true, true),
    };
    cs.slots[2] = cte_t {
        capability: Capability::Endpoint { ptr: 0x100, badge: 2 },
        mdb: node(Some(1), None, true, true),
    };
    let mut hooks = TestHooks::new();
    // the very first preemption check signals an interrupt
    hooks.preempt_after = Some(0);
    let r = cs.revoke(&mut hooks, 0, 64);
    assert_eq!(r, Exception::Preempted);
    // partial state: one child gone, the tree still well formed
    assert_eq!(cs.slots[1].capability.get_tag(), CapTag::Null);
    assert_eq!(cs.slots[2].capability.get_tag(), CapTag::Endpoint);
    assert!(links_are_symmetric(&cs));
    // resuming the same operation finishes the job
    hooks.preempt_after = None;
    let r = cs.revoke(&mut hooks, 0, 64);
    assert_eq!(r, Exception::NoError);
    assert_eq!(cs.slots[2].capability.get_tag(), CapTag::Null);
}

#[test]
fn fuel_exhaustion_reports_preemption() {
    let mut cs = empty_space(4);
    cs.slots[0] = cte_t {
        capability: Capability::Endpoint { ptr: 0x100, badge: 0 },
        mdb: node(None, Some(1), true, false),
    };
    cs.slots[1] = cte_t {
        capability: Capability::Endpoint { ptr: 0x100, badge: 1 },
        mdb: node(Some(0), None, true, true),
    };
    let mut hooks = TestHooks::new();
    let r = cs.revoke(&mut hooks, 0, 0);
    assert_eq!(r, Exception::Preempted);
    // nothing was deleted; the state is untouched and resumable
    assert_eq!(cs.slots[1].capability.get_tag(), CapTag::Endpoint);
    let r = cs.revoke(&mut hooks, 0, 64);
    assert_eq!(r, Exception::NoError);
    assert_eq!(cs.slots[1].capability.get_tag(), CapTag::Null);
}

#[test]
fn out_of_range_zombie_is_a_fault() {
    // a collaborator handing back a zombie whose slot run lies outside the
    // arena is detected, not followed
    let mut cs = empty_space(4);
    cs.slots[0] = cte_t {
        capability: Capability::Zombie { ptr: 2, count: 9, zombie_bits: 4 },
        mdb: node(None, None, false, false),
    };
    let mut hooks = TestHooks::new();
    let r = cs.delete_all(&mut hooks, 0, true, 64);
    assert_eq!(r, Exception::Fault);
}

#[test]
fn delete_all_on_empty_slot_is_a_no_op() {
    let mut cs = empty_space(2);
    let mut hooks = TestHooks::new();
    let r = cs.delete_all(&mut hooks, 1, true, 64);
    assert_eq!(r, Exception::NoError);
    assert_eq!(cs.slots[1], cte_t::empty());
    assert_eq!(hooks.deletions, 0);
}

#[test]
fn delete_one_on_empty_slot_calls_no_hooks() {
    let mut cs = empty_space(2);
    let mut hooks = TestHooks::new();
    assert_eq!(cs.delete_one(&mut hooks, 0), Exception::NoError);
    assert_eq!(hooks.deletions, 0);
    assert_eq!(hooks.preemption_checks, 0);
}

#[test]
fn revoke_of_childless_slot_does_nothing() {
    let mut cs = empty_space(3);
    cs.slots[0] = cte_t {
        capability: Capability::Endpoint { ptr: 0x100, badge: 0 },
        mdb: node(None, None, true, false),
    };
    let mut hooks = TestHooks::new();
    assert_eq!(cs.revoke(&mut hooks, 0, 64), Exception::NoError);
    assert_eq!(cs.slots[0].capability.get_tag(), CapTag::Endpoint);
    assert_eq!(hooks.deletions, 0);
}
