//! The preemptible deletion protocol: finalise / zombie / reduce-zombie /
//! revoke. A compound object mid-teardown is represented by a transient
//! zombie capability held in its own slot, so every long-running operation
//! can stop at a preemption point and be resumed later by re-invoking it.
//!
//! The protocol's loops carry an explicit fuel bound, the termination
//! measure of the protocol's loops and recursion. Exhausting it reports
//! `Preempted`, exactly like a pending interrupt, and the slot state remains
//! valid and resumable.

use vstd::prelude::*;

use crate::capability::{CapTag, Capability};
use crate::cte::{cap_ok, cte_swap, cte_swap_spec, cte_t, CapSpace, MdbNode};
use crate::exception::Exception;

verus! {

/// What the external finalizer hands back: a remainder capability — null, or
/// a zombie standing in for a not-yet-fully-destroyed compound object — and
/// cleanup-notification metadata.
#[derive(Clone, Copy, PartialEq, Eq, Structural, Debug)]
pub struct FinaliseCapRet {
    pub remainder: Capability,
    pub cleanup_info: Capability,
}

/// Result of finalising one slot: a status, whether the slot's capability
/// was brought all the way down to a removable state, and the cleanup
/// metadata to pass to the deletion notifier.
#[derive(Clone, Copy, PartialEq, Eq, Structural, Debug)]
pub struct FinaliseSlotRet {
    pub status: Exception,
    pub success: bool,
    pub cleanup_info: Capability,
}

/// The external collaborators of the deletion protocol, supplied by the
/// embedding kernel. The finalizer's remainder is trusted to be null or a
/// zombie — the only shapes the protocol can make progress on; everything
/// else the protocol re-checks at run time and answers with `Fault`.
pub trait KernelHooks {
    /// The object finalizer: given a capability and whether it is the last
    /// extant reference, disposes of what can be disposed and returns a
    /// remainder capability plus cleanup metadata.
    fn finalise_cap(&mut self, capability: &Capability, is_final: bool, immediate: bool) -> (r:
        FinaliseCapRet)
        ensures
            r.remainder is Null || r.remainder is Zombie,
    ;

    /// Fire-and-forget deletion notification, called once per emptied slot.
    fn post_cap_deletion(&mut self, cleanup: &Capability);

    /// The preemption check, consulted at every checkpoint: `NoError` to
    /// continue, anything else to abort the long-running operation, which
    /// the caller resumes later.
    fn preemption_point(&mut self) -> (r: Exception);
}

/// A remainder that needs no further work: null, or a zombie with no
/// remaining slots, or a zombie whose single remaining slot is the very one
/// it sits in.
pub open spec fn cap_removable_spec(capability: Capability, slot: int) -> bool {
    match capability {
        Capability::Null => true,
        Capability::Zombie { ptr, count, .. } => count == 0 || (count == 1 && ptr as int == slot),
        _ => false,
    }
}

/// Whether the finalizer's remainder for the capability in `slot` is
/// trivially removable.
fn cap_removable(capability: &Capability, slot: usize) -> (r: bool)
    requires
        *capability is Null || *capability is Zombie,
    ensures
        r == cap_removable_spec(*capability, slot as int),
{
    match capability {
        Capability::Null => true,
        Capability::Zombie { ptr, count, .. } => {
            *count == 0 || (*count == 1 && *ptr == slot as u64)
        },
        _ => false,
    }
}

/// A cyclic zombie: a zombie capability whose target pointer is the very
/// slot it sits in — the detected terminal state of non-immediate teardown
/// of a self-referential capability table.
pub open spec fn cap_cyclic_zombie_spec(capability: Capability, slot: int) -> bool {
    match capability {
        Capability::Zombie { ptr, .. } => ptr as int == slot,
        _ => false,
    }
}

/// Whether the capability is a cyclic zombie for `slot`.
fn cap_cyclic_zombie(capability: &Capability, slot: usize) -> (r: bool)
    ensures
        r == cap_cyclic_zombie_spec(*capability, slot as int),
{
    match capability {
        Capability::Zombie { ptr, .. } => *ptr == slot as u64,
        _ => false,
    }
}

/// Whether the link `l` points at slot `i`.
fn link_is(l: Option<usize>, i: usize) -> (r: bool)
    ensures
        r == (l == Some(i)),
{
    match l {
        Some(x) => x == i,
        None => false,
    }
}

/// The state of the arena after unsplicing and emptying a non-null `slot`:
/// its neighbours are linked to each other, the first-badged flag propagates
/// to the successor, and the slot itself becomes empty.
pub open spec fn set_empty_spec(s: Seq<cte_t>, slot: int) -> Seq<cte_t> {
    let mdb = s[slot].mdb;
    let s1 = match mdb.prev {
        Some(p) => s.update(
            p as int,
            (cte_t {
                capability: s[p as int].capability,
                mdb: (MdbNode {
                    prev: s[p as int].mdb.prev,
                    next: mdb.next,
                    revocable: s[p as int].mdb.revocable,
                    first_badged: s[p as int].mdb.first_badged,
                }),
            }),
        ),
        None => s,
    };
    let s2 = match mdb.next {
        Some(q) => s1.update(
            q as int,
            (cte_t {
                capability: s1[q as int].capability,
                mdb: (MdbNode {
                    prev: mdb.prev,
                    next: s1[q as int].mdb.next,
                    revocable: s1[q as int].mdb.revocable,
                    first_badged: s1[q as int].mdb.first_badged || mdb.first_badged,
                }),
            }),
        ),
        None => s1,
    };
    s2.update(slot, cte_t::empty_spec())
}

#[verifier::rlimit(100)]
#[verifier::spinoff_prover]
proof fn lemma_set_empty_wf(pre: CapSpace, post: CapSpace, slot: int)
    requires
        pre.wf(),
        pre.num_slots() <= usize::MAX,
        0 <= slot < pre.num_slots(),
        post.slots@ == set_empty_spec(pre.slots@, slot),
    ensures
        post.wf(),
{
    let n = pre.num_slots();
    assert(post.num_slots() == n);
    assert forall|i: int| 0 <= i < n implies cap_ok(#[trigger] post.cap_at(i), n) by {
        assert(cap_ok(pre.cap_at(i), n));
    }
    match pre.prev_of(slot) {
        Some(p) => {
            assert(p < n && pre.next_of(p as int) == Some(slot as usize));
        },
        None => {},
    }
    match pre.next_of(slot) {
        Some(q) => {
            assert(q < n && pre.prev_of(q as int) == Some(slot as usize));
        },
        None => {},
    }
    assert forall|i: int|
        0 <= i < n implies ((#[trigger] post.cap_at(i)) is Null ==> post.slot_at(i).mdb
        == MdbNode::empty_spec()) by {
        assert(pre.cap_at(i) is Null ==> pre.slot_at(i).mdb == MdbNode::empty_spec());
        match pre.next_of(i) {
            Some(j) => {
                assert(j < n && pre.prev_of(j as int) == Some(i as usize));
            },
            None => {},
        }
        match pre.prev_of(i) {
            Some(j) => {
                assert(j < n && pre.next_of(j as int) == Some(i as usize));
            },
            None => {},
        }
    }
    assert forall|i: int|
        #![trigger post.next_of(i)]
        #![trigger post.prev_of(i)]
        0 <= i < n implies {
            &&& (post.next_of(i) matches Some(j) ==> j < n && post.prev_of(j as int) == Some(
                i as usize,
            ))
            &&& (post.prev_of(i) matches Some(j) ==> j < n && post.next_of(j as int) == Some(
                i as usize,
            ))
        } by {
        match pre.next_of(i) {
            Some(j) => {
                assert(j < n && pre.prev_of(j as int) == Some(i as usize));
            },
            None => {},
        }
        match pre.prev_of(i) {
            Some(j) => {
                assert(j < n && pre.next_of(j as int) == Some(i as usize));
            },
            None => {},
        }
    }
}

/// A null or zombie capability is always well formed: it carries no span or
/// table bounds of its own.
proof fn lemma_null_zombie_wf(c: Capability)
    requires
        c is Null || c is Zombie,
    ensures
        c.cap_wf(),
{
    assert((1u64 << 0u64) == 1u64) by (bit_vector);
}

/// Overwriting one slot's capability, links untouched, keeps the arena well
/// formed as long as the new capability is fit to be stored.
proof fn lemma_cap_write_wf(pre: CapSpace, post: CapSpace, slot: int, c: Capability)
    requires
        pre.wf(),
        pre.num_slots() <= usize::MAX,
        0 <= slot < pre.num_slots(),
        cap_ok(c, pre.num_slots()),
        !(c is Null),
        post.slots@ == pre.slots@.update(
            slot,
            (cte_t { capability: c, mdb: pre.slot_at(slot).mdb }),
        ),
    ensures
        post.wf(),
{
    let n = pre.num_slots();
    assert(post.num_slots() == n);
    assert forall|i: int| 0 <= i < n implies cap_ok(#[trigger] post.cap_at(i), n) by {
        assert(cap_ok(pre.cap_at(i), n));
    }
    assert forall|i: int|
        0 <= i < n implies ((#[trigger] post.cap_at(i)) is Null ==> post.slot_at(i).mdb
        == MdbNode::empty_spec()) by {
        assert(pre.cap_at(i) is Null ==> pre.slot_at(i).mdb == MdbNode::empty_spec());
    }
    assert forall|i: int|
        #![trigger post.next_of(i)]
        #![trigger post.prev_of(i)]
        0 <= i < n implies {
            &&& (post.next_of(i) matches Some(j) ==> j < n && post.prev_of(j as int) == Some(
                i as usize,
            ))
            &&& (post.prev_of(i) matches Some(j) ==> j < n && post.next_of(j as int) == Some(
                i as usize,
            ))
        } by {
        match pre.next_of(i) {
            Some(j) => {
                assert(j < n && pre.prev_of(j as int) == Some(i as usize));
            },
            None => {},
        }
        match pre.prev_of(i) {
            Some(j) => {
                assert(j < n && pre.next_of(j as int) == Some(i as usize));
            },
            None => {},
        }
    }
}

impl CapSpace {
    /// Unsplices `slot` from the derivation list, propagating the
    /// first-badged flag to its successor, overwrites it with a null
    /// capability and zeroed linkage, and fires the deletion notifier with
    /// `cleanup_info`. A slot that is already null is left untouched.
    fn set_empty<H: KernelHooks>(&mut self, hooks: &mut H, slot: usize, cleanup_info: &Capability)
        requires
            old(self).wf(),
            slot < old(self).num_slots(),
        ensures
            final(self).wf(),
            final(self).num_slots() == old(self).num_slots(),
            final(self).cap_at(slot as int) is Null,
            old(self).cap_at(slot as int) is Null ==> final(self).slots@ == old(self).slots@,
            !(old(self).cap_at(slot as int) is Null) ==> final(self).slots@ == set_empty_spec(
                old(self).slots@,
                slot as int,
            ),
    {
        let arena_len = self.slots.len();
        if self.slots[slot].capability.get_tag() == CapTag::Null {
            return;
        }
        let mdb = self.slots[slot].mdb;
        match mdb.prev {
            Some(p) => {
                proof {
                    assert(old(self).prev_of(slot as int) == Some(p));
                }
                self.slots[p].mdb.next = mdb.next;
            },
            None => {},
        }
        match mdb.next {
            Some(q) => {
                proof {
                    assert(old(self).next_of(slot as int) == Some(q));
                }
                self.slots[q].mdb.prev = mdb.prev;
                let fb = self.slots[q].mdb.first_badged || mdb.first_badged;
                self.slots[q].mdb.first_badged = fb;
            },
            None => {},
        }
        self.slots[slot] = cte_t::empty();
        proof {
            assert(old(self).num_slots() == arena_len);
            assert(self.slots@ =~= set_empty_spec(old(self).slots@, slot as int));
            lemma_set_empty_wf(*old(self), *self, slot as int);
        }
        hooks.post_cap_deletion(cleanup_info);
    }

    /// The finalisation loop: repeatedly consults the external finalizer,
    /// adopting its zombie remainders and reducing them, until the slot's
    /// capability is removable, a cyclic zombie is detected (non-immediate
    /// teardown only), the fuel runs out or preemption strikes.
    fn finalise<H: KernelHooks>(
        &mut self,
        hooks: &mut H,
        slot: usize,
        immediate: bool,
        fuel: usize,
    ) -> (r: FinaliseSlotRet)
        requires
            old(self).wf(),
            slot < old(self).num_slots(),
        ensures
            final(self).wf(),
            final(self).num_slots() == old(self).num_slots(),
            slot < final(self).num_slots(),
            r.status == Exception::NoError && !r.success ==> !immediate && cap_cyclic_zombie_spec(
                final(self).cap_at(slot as int),
                slot as int,
            ),
            old(self).cap_at(slot as int) is Null ==> r == (FinaliseSlotRet {
                status: Exception::NoError,
                success: true,
                cleanup_info: Capability::Null,
            }) && final(self).slots@ == old(self).slots@,
            fuel == 0 && !(old(self).cap_at(slot as int) is Null) ==> r == (FinaliseSlotRet {
                status: Exception::Preempted,
                success: false,
                cleanup_info: Capability::Null,
            }) && final(self).slots@ == old(self).slots@,
        decreases fuel, 1int,
    {
        let arena_len = self.slots.len();
        if self.slots[slot].capability.get_tag() == CapTag::Null {
            return FinaliseSlotRet {
                status: Exception::NoError,
                success: true,
                cleanup_info: Capability::Null,
            };
        }
        if fuel == 0 {
            return FinaliseSlotRet {
                status: Exception::Preempted,
                success: false,
                cleanup_info: Capability::Null,
            };
        }
        let mut remaining = fuel;
        loop
            invariant
                self.wf(),
                self.num_slots() == arena_len,
                old(self).num_slots() == arena_len,
                slot < arena_len,
                remaining <= fuel,
                !(old(self).cap_at(slot as int) is Null),
                1 <= fuel,
            decreases remaining,
        {
            if self.slots[slot].capability.get_tag() == CapTag::Null {
                return FinaliseSlotRet {
                    status: Exception::NoError,
                    success: true,
                    cleanup_info: Capability::Null,
                };
            }
            if remaining == 0 {
                return FinaliseSlotRet {
                    status: Exception::Preempted,
                    success: false,
                    cleanup_info: Capability::Null,
                };
            }
            remaining = remaining - 1;
            let is_final = self.is_final_cap(slot);
            let cap_copy = self.slots[slot].capability;
            let fc_ret = hooks.finalise_cap(&cap_copy, is_final, false);
            if cap_removable(&fc_ret.remainder, slot) {
                return FinaliseSlotRet {
                    status: Exception::NoError,
                    success: true,
                    cleanup_info: fc_ret.cleanup_info,
                };
            }
            let ghost mid = *self;
            self.slots[slot].capability = fc_ret.remainder;
            proof {
                lemma_null_zombie_wf(fc_ret.remainder);
                lemma_cap_write_wf(mid, *self, slot as int, fc_ret.remainder);
            }
            if !immediate && cap_cyclic_zombie(&fc_ret.remainder, slot) {
                return FinaliseSlotRet {
                    status: Exception::NoError,
                    success: false,
                    cleanup_info: fc_ret.cleanup_info,
                };
            }
            let status = self.reduce_zombie(hooks, slot, immediate, remaining);
            if status != Exception::NoError {
                return FinaliseSlotRet {
                    status,
                    success: false,
                    cleanup_info: Capability::Null,
                };
            }
            let status = hooks.preemption_point();
            if status != Exception::NoError {
                return FinaliseSlotRet {
                    status,
                    success: false,
                    cleanup_info: Capability::Null,
                };
            }
        }
    }

    /// Makes one unit of progress on the zombie held in `slot`. Immediate
    /// teardown recursively deletes the zombie's last remaining slot and
    /// decrements its count if nothing mutated it underneath; non-immediate
    /// teardown swaps the slot with the zombie's target, producing the
    /// cyclic-zombie condition the finalisation loop detects. Collaborator
    /// output that breaks the protocol's assumptions yields `Fault`.
    fn reduce_zombie<H: KernelHooks>(
        &mut self,
        hooks: &mut H,
        slot: usize,
        immediate: bool,
        fuel: usize,
    ) -> (r: Exception)
        requires
            old(self).wf(),
            slot < old(self).num_slots(),
            old(self).cap_at(slot as int) is Zombie,
            !cap_removable_spec(old(self).cap_at(slot as int), slot as int),
            !immediate ==> !cap_cyclic_zombie_spec(old(self).cap_at(slot as int), slot as int),
        ensures
            final(self).wf(),
            final(self).num_slots() == old(self).num_slots(),
            !immediate ==> ({
                let target = old(self).cap_at(slot as int)->Zombie_ptr as int;
                if r == Exception::NoError {
                    final(self).slots@ == cte_swap_spec(
                        old(self).slots@,
                        old(self).cap_at(target),
                        target,
                        old(self).cap_at(slot as int),
                        slot as int,
                    )
                } else {
                    r == Exception::Fault && final(self).slots@ == old(self).slots@
                }
            }),
            immediate && fuel == 0 ==> r == Exception::Preempted && final(self).slots@ == old(self).slots@,
            immediate && r == Exception::NoError ==> ({
                let z = old(self).cap_at(slot as int);
                ||| final(self).cap_at(slot as int) is Null
                ||| (final(self).cap_at(slot as int) == (Capability::Zombie {
                    ptr: z->Zombie_ptr,
                    count: (z->Zombie_count - 1) as usize,
                    zombie_bits: z->Zombie_zombie_bits,
                }) && final(self).cap_at(z->Zombie_ptr as int + z->Zombie_count - 1) is Null)
                ||| cap_cyclic_zombie_spec(final(self).cap_at(slot as int), slot as int)
            }),
        decreases fuel, 0int,
    {
        let arena_len = self.slots.len();
        let (z_ptr, n, z_bits) = match self.slots[slot].capability {
            Capability::Zombie { ptr, count, zombie_bits } => (ptr, count, zombie_bits),
            _ => {
                return Exception::Fault;
            },
        };
        if immediate {
            if fuel == 0 {
                return Exception::Preempted;
            }
            if z_ptr >= arena_len as u64 || n as u64 > arena_len as u64 - z_ptr {
                return Exception::Fault;
            }
            let end_slot = (z_ptr as usize) + (n - 1);
            let status = self.delete_all(hooks, end_slot, false, fuel - 1);
            if status != Exception::NoError {
                return status;
            }
            match self.slots[slot].capability {
                Capability::Null => Exception::NoError,
                Capability::Zombie { ptr: ptr2, count: n2, zombie_bits: t2 } => {
                    if ptr2 == z_ptr && n2 == n && t2 == z_bits {
                        // the recursion must have emptied the zombie's last slot
                        if self.slots[end_slot].capability.get_tag() != CapTag::Null {
                            return Exception::Fault;
                        }
                        let ghost mid = *self;
                        let reduced = Capability::Zombie {
                            ptr: z_ptr,
                            count: n - 1,
                            zombie_bits: z_bits,
                        };
                        self.slots[slot].capability = reduced;
                        proof {
                            lemma_null_zombie_wf(reduced);
                            lemma_cap_write_wf(mid, *self, slot as int, reduced);
                        }
                        Exception::NoError
                    } else {
                        if ptr2 == slot as u64 && z_ptr != slot as u64 {
                            Exception::NoError
                        } else {
                            Exception::Fault
                        }
                    }
                },
                _ => Exception::Fault,
            }
        } else {
            // the zombie does not point at this very slot: swap this slot
            // with the target, making the zombie cyclic
            if z_ptr >= arena_len as u64 {
                return Exception::Fault;
            }
            let next_slot = z_ptr as usize;
            let a = self.slots[next_slot].mdb;
            let b = self.slots[slot].mdb;
            // a self-linked slot never occurs in a well-formed derivation
            // list; treat one as collaborator-induced corruption
            if link_is(a.next, next_slot) || link_is(a.prev, next_slot) || link_is(b.next, slot)
                || link_is(b.prev, slot) {
                return Exception::Fault;
            }
            let cap1 = self.slots[next_slot].capability;
            let cap2 = self.slots[slot].capability;
            proof {
                assert(cap_ok(self.cap_at(next_slot as int), self.num_slots()));
                assert(cap_ok(self.cap_at(slot as int), self.num_slots()));
            }
            cte_swap(self, &cap1, next_slot, &cap2, slot);
            Exception::NoError
        }
    }

    /// Clears the slot: finalises its capability and, when teardown is
    /// exposed or ran to completion, unsplices and empties the slot. On
    /// success with non-exposed teardown the slot is either empty or holds
    /// the detected cyclic zombie — never an infinite loop.
    pub fn delete_all<H: KernelHooks>(
        &mut self,
        hooks: &mut H,
        slot: usize,
        exposed: bool,
        fuel: usize,
    ) -> (r: Exception)
        requires
            old(self).wf(),
            slot < old(self).num_slots(),
        ensures
            final(self).wf(),
            final(self).num_slots() == old(self).num_slots(),
            r == Exception::NoError && exposed ==> final(self).slot_at(slot as int)
                == cte_t::empty_spec(),
            r == Exception::NoError && !exposed ==> (final(self).slot_at(slot as int)
                == cte_t::empty_spec() || cap_cyclic_zombie_spec(
                final(self).cap_at(slot as int),
                slot as int,
            )),
            old(self).cap_at(slot as int) is Null ==> r == Exception::NoError && final(self).slots@ == old(self).slots@,
            fuel == 0 && !(old(self).cap_at(slot as int) is Null) ==> r == Exception::Preempted
                && final(self).slots@ == old(self).slots@,
        decreases fuel, 2int,
    {
        let fs_ret = self.finalise(hooks, slot, exposed, fuel);
        if fs_ret.status != Exception::NoError {
            return fs_ret.status;
        }
        if exposed || fs_ret.success {
            self.set_empty(hooks, slot, &fs_ret.cleanup_info);
        }
        Exception::NoError
    }

    /// Fast path for a capability known to be individually removable in one
    /// shot: the finalizer's remainder must be trivially removable with no
    /// cleanup pending, and the slot is then emptied. A remainder that
    /// breaks that assumption yields `Fault` and leaves the slot alone.
    pub fn delete_one<H: KernelHooks>(&mut self, hooks: &mut H, slot: usize) -> (r: Exception)
        requires
            old(self).wf(),
            slot < old(self).num_slots(),
        ensures
            final(self).wf(),
            final(self).num_slots() == old(self).num_slots(),
            r == Exception::NoError ==> final(self).slot_at(slot as int) == cte_t::empty_spec(),
            old(self).cap_at(slot as int) is Null ==> r == Exception::NoError && final(self).slots@ == old(self).slots@,
    {
        if self.slots[slot].capability.get_tag() != CapTag::Null {
            let is_final = self.is_final_cap(slot);
            let cap_copy = self.slots[slot].capability;
            let fc_ret = hooks.finalise_cap(&cap_copy, is_final, true);
            if !cap_removable(&fc_ret.remainder, slot) {
                return Exception::Fault;
            }
            if fc_ret.cleanup_info.get_tag() != CapTag::Null {
                return Exception::Fault;
            }
            self.set_empty(hooks, slot, &Capability::Null);
        }
        Exception::NoError
    }

    /// Revokes the capability in `slot`: deletes its derivation children,
    /// always through the current immediate successor, re-reading that link
    /// fresh before every pass because the recursive deletion below can
    /// rewrite it in place. Stops when the successor is no longer a child of
    /// this slot, at a preemption point, or when the fuel runs out.
    pub fn revoke<H: KernelHooks>(&mut self, hooks: &mut H, slot: usize, fuel: usize) -> (r:
        Exception)
        requires
            old(self).wf(),
            slot < old(self).num_slots(),
        ensures
            final(self).wf(),
            final(self).num_slots() == old(self).num_slots(),
            r == Exception::NoError ==> !final(self).has_child_spec(slot as int),
            !old(self).has_child_spec(slot as int) ==> r == Exception::NoError && final(self).slots@ == old(self).slots@,
            fuel == 0 && old(self).has_child_spec(slot as int) ==> r == Exception::Preempted
                && final(self).slots@ == old(self).slots@,
    {
        let arena_len = self.slots.len();
        let mut remaining = fuel;
        loop
            invariant
                self.wf(),
                self.num_slots() == arena_len,
                old(self).num_slots() == arena_len,
                slot < arena_len,
                remaining <= fuel,
                old(self).has_child_spec(slot as int) || self.slots@ == old(self).slots@,
                fuel == 0 ==> self.slots@ == old(self).slots@,
            decreases remaining,
        {
            // read the successor link fresh on every pass
            match self.slots[slot].mdb.next {
                Some(next) => {
                    proof {
                        assert(self.next_of(slot as int) == Some(next));
                    }
                    if !self.is_mdb_parent_of(slot, next) {
                        return Exception::NoError;
                    }
                    if remaining == 0 {
                        return Exception::Preempted;
                    }
                    remaining = remaining - 1;
                    let status = self.delete_all(hooks, next, true, remaining);
                    if status != Exception::NoError {
                        return status;
                    }
                    let status = hooks.preemption_point();
                    if status != Exception::NoError {
                        return status;
                    }
                },
                None => {
                    return Exception::NoError;
                },
            }
        }
    }
}

} // verus!
