//! The guarded capability-space address resolver: walks a chain of
//! capability-table capabilities, at each level matching a guard field and
//! consuming radix bits of the address as a table index.

use vstd::prelude::*;

use crate::capability::{mask_bits, mask_of, CapTag, Capability, WORD_BITS};
use crate::cte::{cap_ok, cnode_bounded, CapSpace};
use crate::exception::Exception;

verus! {

/// Result of resolving a capability-space address: a status, the deepest
/// slot reached (none when the lookup faulted before reaching one) and the
/// number of address bits left unconsumed — zero on full resolution, the
/// leftover count on a partial one, and the original depth on a fault.
#[derive(Clone, Copy, PartialEq, Eq, Structural, Debug)]
pub struct ResolveAddressBitsRet {
    pub status: Exception,
    pub slot: Option<usize>,
    pub bits_remaining: usize,
}

/// One descent of the resolver, level by level. Fault results carry dummy
/// slot/bits fields; [`resolve_address_bits_spec`] replaces them with what
/// the caller reports.
pub open spec fn resolve_levels_spec(
    cs: CapSpace,
    node_cap: Capability,
    cap_ptr: u64,
    n_bits: usize,
) -> ResolveAddressBitsRet
    decreases n_bits,
{
    match node_cap {
        Capability::CNode { ptr, radix, guard, guard_size } => {
            let level_bits = radix + guard_size;
            if level_bits == 0 {
                (ResolveAddressBitsRet {
                    status: Exception::LookupFault,
                    slot: None,
                    bits_remaining: 0,
                })
            } else if guard_size > n_bits {
                (ResolveAddressBitsRet {
                    status: Exception::LookupFault,
                    slot: None,
                    bits_remaining: 0,
                })
            } else if (cap_ptr >> ((((n_bits - guard_size) as usize) % WORD_BITS) as u64)) & mask_of(
                guard_size,
            ) != guard {
                (ResolveAddressBitsRet {
                    status: Exception::LookupFault,
                    slot: None,
                    bits_remaining: 0,
                })
            } else if level_bits > n_bits {
                (ResolveAddressBitsRet {
                    status: Exception::LookupFault,
                    slot: None,
                    bits_remaining: 0,
                })
            } else {
                let offset = (cap_ptr >> (((n_bits - level_bits) as usize) as u64)) & mask_of(
                    radix,
                );
                let slot = (ptr + offset) as usize;
                if n_bits == level_bits {
                    (ResolveAddressBitsRet {
                        status: Exception::NoError,
                        slot: Some(slot),
                        bits_remaining: 0,
                    })
                } else {
                    let rest = (n_bits - level_bits) as usize;
                    let next_cap = cs.cap_at(slot as int);
                    if next_cap is CNode {
                        resolve_levels_spec(cs, next_cap, cap_ptr, rest)
                    } else {
                        (ResolveAddressBitsRet {
                            status: Exception::NoError,
                            slot: Some(slot),
                            bits_remaining: rest,
                        })
                    }
                }
            }
        },
        _ => (ResolveAddressBitsRet {
            status: Exception::LookupFault,
            slot: None,
            bits_remaining: 0,
        }),
    }
}

/// What resolving `cap_ptr` to depth `n_bits` from `node_cap` returns: the
/// level-by-level descent, with a fault reported as no slot and the original
/// depth as the remaining bit count.
pub open spec fn resolve_address_bits_spec(
    cs: CapSpace,
    node_cap: Capability,
    cap_ptr: u64,
    n_bits: usize,
) -> ResolveAddressBitsRet {
    let r = resolve_levels_spec(cs, node_cap, cap_ptr, n_bits);
    if r.status == Exception::LookupFault {
        (ResolveAddressBitsRet {
            status: Exception::LookupFault,
            slot: None,
            bits_remaining: n_bits,
        })
    } else {
        r
    }
}

/// Resolves a capability-space address through nested capability tables.
///
/// At each level the current table's guard must match the address bits just
/// below those already consumed, and the next radix bits index into the
/// table. Resolution succeeds with zero bits remaining when the depth is
/// exactly consumed; reaching a non-table capability early returns that slot
/// with the leftover bit count; a guard mismatch or exhausted depth is a
/// lookup fault. The walk is deterministic: the result is a function of the
/// arena, the root capability, the address and the depth alone.
pub fn resolve_address_bits(
    cs: &CapSpace,
    node_cap: &Capability,
    cap_ptr: u64,
    n_bits: usize,
) -> (r: ResolveAddressBitsRet)
    requires
        cs.wf(),
        cap_ok(*node_cap, cs.num_slots()),
        n_bits <= WORD_BITS,
    ensures
        r == resolve_address_bits_spec(*cs, *node_cap, cap_ptr, n_bits),
        r.slot matches Some(i) ==> i < cs.num_slots(),
{
    let arena_len = cs.slots.len();
    let mut current_cap = *node_cap;
    let mut bits = n_bits;
    if current_cap.get_tag() != CapTag::CNode {
        return ResolveAddressBitsRet {
            status: Exception::LookupFault,
            slot: None,
            bits_remaining: n_bits,
        };
    }
    loop
        invariant
            cs.wf(),
            cs.num_slots() == arena_len,
            cap_ok(current_cap, cs.num_slots()),
            current_cap is CNode,
            bits <= WORD_BITS,
            resolve_levels_spec(*cs, *node_cap, cap_ptr, n_bits) == resolve_levels_spec(
                *cs,
                current_cap,
                cap_ptr,
                bits,
            ),
        decreases bits,
    {
        let (node_ptr, radix, node_guard, guard_size) = match current_cap {
            Capability::CNode { ptr, radix, guard, guard_size } => (ptr, radix, guard, guard_size),
            _ => {
                return ResolveAddressBitsRet {
                    status: Exception::LookupFault,
                    slot: None,
                    bits_remaining: n_bits,
                };
            },
        };
        let level_bits = radix + guard_size;
        if guard_size > bits {
            return ResolveAddressBitsRet {
                status: Exception::LookupFault,
                slot: None,
                bits_remaining: n_bits,
            };
        }
        let guard = (cap_ptr >> (((bits - guard_size) % WORD_BITS) as u64)) & mask_bits(guard_size);
        if guard != node_guard {
            return ResolveAddressBitsRet {
                status: Exception::LookupFault,
                slot: None,
                bits_remaining: n_bits,
            };
        }
        if level_bits > bits {
            return ResolveAddressBitsRet {
                status: Exception::LookupFault,
                slot: None,
                bits_remaining: n_bits,
            };
        }
        let m = mask_bits(radix);
        let offset = (cap_ptr >> ((bits - level_bits) as u64)) & m;
        proof {
            let r64 = radix as u64;
            let x = cap_ptr >> ((bits - level_bits) as u64);
            assert((x & m) <= m) by (bit_vector);
            assert(r64 < 64 ==> (1u64 << r64) >= 1u64) by (bit_vector);
            assert(offset < (1u64 << r64));
            assert(cs.num_slots() == arena_len);
            assert(cnode_bounded(current_cap, cs.num_slots()));
            assert(current_cap == (Capability::CNode {
                ptr: node_ptr,
                radix,
                guard: node_guard,
                guard_size,
            }));
            assert(node_ptr + (1u64 << r64) <= arena_len);
        }
        let slot = (node_ptr + offset) as usize;
        if bits == level_bits {
            return ResolveAddressBitsRet {
                status: Exception::NoError,
                slot: Some(slot),
                bits_remaining: 0,
            };
        }
        bits = bits - level_bits;
        let next_cap = cs.slots[slot].capability;
        proof {
            assert(cap_ok(cs.cap_at(slot as int), cs.num_slots()));
        }
        if next_cap.get_tag() != CapTag::CNode {
            return ResolveAddressBitsRet {
                status: Exception::NoError,
                slot: Some(slot),
                bits_remaining: bits,
            };
        }
        current_cap = next_cap;
    }
}

/// Law: the resolver is deterministic — resolving the same address to the
/// same depth twice, with no mutation of the arena in between, yields the
/// identical slot and the identical bits-remaining count.
pub proof fn lemma_resolver_deterministic(
    cs: CapSpace,
    node_cap: Capability,
    cap_ptr: u64,
    n_bits: usize,
)
    ensures
        resolve_address_bits_spec(cs, node_cap, cap_ptr, n_bits) == resolve_address_bits_spec(
            cs,
            node_cap,
            cap_ptr,
            n_bits,
        ),
{
}

} // verus!
