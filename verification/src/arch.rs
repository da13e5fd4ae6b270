//! Architecture layer: pointer extraction, rights masking and region/object
//! equivalence for the architecture-specific capability kinds (frame, page
//! table, address-space root, ASID pool/control).

use vstd::prelude::*;

use crate::capability::{
    mask_bits, mask_of, page_bits_for_size, page_bits, CapRights, CapTag, Capability, VmRights,
};
use crate::cte::deriveCap_ret;
use crate::exception::Exception;

verus! {

/// The architecture derive rule: an address-space root or page table derives
/// successfully only while mapped; a frame derives with its mapping fields
/// cleared; ASID control and pool capabilities pass through unchanged.
pub open spec fn arch_derive_cap_spec(capability: Capability) -> deriveCap_ret
    recommends
        capability.is_arch_cap_spec(),
{
    match capability {
        Capability::PageTable { base: _, is_mapped } => {
            if is_mapped {
                (deriveCap_ret { status: Exception::NoError, capability })
            } else {
                (deriveCap_ret { status: Exception::SyscallError, capability: Capability::Null })
            }
        },
        Capability::VSpace { base: _, is_mapped } => {
            if is_mapped {
                (deriveCap_ret { status: Exception::NoError, capability })
            } else {
                (deriveCap_ret { status: Exception::SyscallError, capability: Capability::Null })
            }
        },
        Capability::Frame { base, size, rights, is_device, .. } => {
            (deriveCap_ret {
                status: Exception::NoError,
                capability: (Capability::Frame {
                    base,
                    size,
                    rights,
                    is_device,
                    mapped_address: 0,
                    mapped_asid: 0,
                }),
            })
        },
        Capability::AsidControl => (deriveCap_ret { status: Exception::NoError, capability }),
        Capability::AsidPool { .. } => (deriveCap_ret { status: Exception::NoError, capability }),
        _ => (deriveCap_ret { status: Exception::Fault, capability: Capability::Null }),
    }
}

/// Derives an architecture capability; the argument must be one.
pub fn arch_derive_cap(capability: &Capability) -> (r: deriveCap_ret)
    requires
        capability.is_arch_cap_spec(),
    ensures
        r == arch_derive_cap_spec(*capability),
{
    match capability {
        Capability::PageTable { is_mapped, .. } => {
            if *is_mapped {
                deriveCap_ret { status: Exception::NoError, capability: *capability }
            } else {
                deriveCap_ret { status: Exception::SyscallError, capability: Capability::Null }
            }
        },
        Capability::VSpace { is_mapped, .. } => {
            if *is_mapped {
                deriveCap_ret { status: Exception::NoError, capability: *capability }
            } else {
                deriveCap_ret { status: Exception::SyscallError, capability: Capability::Null }
            }
        },
        Capability::Frame { base, size, rights, is_device, .. } => {
            deriveCap_ret {
                status: Exception::NoError,
                capability: Capability::Frame {
                    base: *base,
                    size: *size,
                    rights: *rights,
                    is_device: *is_device,
                    mapped_address: 0,
                    mapped_asid: 0,
                },
            }
        },
        Capability::AsidControl => {
            deriveCap_ret { status: Exception::NoError, capability: *capability }
        },
        Capability::AsidPool { .. } => {
            deriveCap_ret { status: Exception::NoError, capability: *capability }
        },
        _ => deriveCap_ret { status: Exception::Fault, capability: Capability::Null },
    }
}

/// Intersection of a frame capability's rights with a caller-supplied mask;
/// masking can only remove rights.
pub open spec fn mask_vm_rights_spec(rights: VmRights, mask: CapRights) -> VmRights {
    (VmRights { read: rights.read && mask.allow_read, write: rights.write && mask.allow_write })
}

/// Region equivalence for architecture capabilities: frames compare by
/// base/span containment; page tables, address-space roots and ASID pools by
/// exact base pointer; ASID control is a singleton.
pub open spec fn arch_same_region_as_spec(cap1: Capability, cap2: Capability) -> bool
    recommends
        cap1.is_arch_cap_spec(),
{
    match cap1 {
        Capability::Frame { base, size, .. } => {
            &&& cap2 matches Capability::Frame { base: b2, size: s2, .. }
            &&& base <= b2
            &&& b2 + mask_of(page_bits_for_size(s2)) <= base + mask_of(page_bits_for_size(size))
        },
        Capability::PageTable { base, .. } => {
            cap2 matches Capability::PageTable { base: b2, .. } && b2 == base
        },
        Capability::VSpace { base, .. } => {
            cap2 matches Capability::VSpace { base: b2, .. } && b2 == base
        },
        Capability::AsidControl => cap2 is AsidControl,
        Capability::AsidPool { pool } => {
            cap2 matches Capability::AsidPool { pool: p2 } && p2 == pool
        },
        _ => false,
    }
}

/// Object equivalence for architecture capabilities: as region equivalence,
/// except that two frames must also agree on size and device flag.
pub open spec fn arch_same_object_as_spec(cap1: Capability, cap2: Capability) -> bool
    recommends
        cap1.is_arch_cap_spec(),
{
    if cap1 is Frame && cap2 is Frame {
        &&& cap1->Frame_base == cap2->Frame_base
        &&& cap1->Frame_size == cap2->Frame_size
        &&& cap1->Frame_is_device == cap2->Frame_is_device
    } else {
        arch_same_region_as_spec(cap1, cap2)
    }
}

/// Returns the base pointer / object identity of a capability of any kind.
pub fn get_cap_ptr(capability: &Capability) -> (r: u64)
    ensures
        r == capability.cap_ptr_spec(),
{
    match capability {
        Capability::Untyped { ptr, .. } => *ptr,
        Capability::Endpoint { ptr, .. } => *ptr,
        Capability::Notification { ptr, .. } => *ptr,
        Capability::CNode { ptr, .. } => *ptr,
        Capability::Thread { ptr } => *ptr,
        Capability::Zombie { ptr, .. } => *ptr,
        Capability::Reply { ptr } => *ptr,
        Capability::SchedContext { ptr } => *ptr,
        Capability::Frame { base, .. } => *base,
        Capability::PageTable { base, .. } => *base,
        Capability::VSpace { base, .. } => *base,
        Capability::AsidPool { pool } => *pool,
        _ => 0,
    }
}

/// Whether the capability is an address-space root.
pub fn is_vtable_root(capability: &Capability) -> (r: bool)
    ensures
        r == (capability is VSpace),
{
    capability.get_tag() == CapTag::VSpace
}

/// An address-space root that is currently mapped.
pub fn is_valid_native_root(capability: &Capability) -> (r: bool)
    ensures
        r == (capability matches Capability::VSpace { is_mapped: true, .. }),
{
    match capability {
        Capability::VSpace { is_mapped, .. } => *is_mapped,
        _ => false,
    }
}

/// An address-space root that may serve as a virtual-address-table root.
pub fn is_valid_vtable_root(capability: &Capability) -> (r: bool)
    ensures
        r == (capability matches Capability::VSpace { is_mapped: true, .. }),
{
    is_valid_native_root(capability)
}

/// Masks a frame capability's access rights with a caller-supplied mask;
/// every other kind passes through unchanged.
pub fn arch_mask_cap_rights(rights: CapRights, capability: &Capability) -> (c: Capability)
    ensures
        ((*capability) matches Capability::Frame {
            base,
            size,
            rights: r,
            is_device,
            mapped_address,
            mapped_asid,
        } ==> c == (Capability::Frame {
            base,
            size,
            rights: mask_vm_rights_spec(r, rights),
            is_device,
            mapped_address,
            mapped_asid,
        })),
        !((*capability) is Frame) ==> c == *capability,
{
    match capability {
        Capability::Frame { base, size, rights: r, is_device, mapped_address, mapped_asid } => {
            let new_rights = VmRights {
                read: r.read && rights.allow_read,
                write: r.write && rights.allow_write,
            };
            Capability::Frame {
                base: *base,
                size: *size,
                rights: new_rights,
                is_device: *is_device,
                mapped_address: *mapped_address,
                mapped_asid: *mapped_asid,
            }
        },
        _ => *capability,
    }
}

/// Region equivalence for architecture capabilities; the capability on the
/// left must be architecture-specific.
pub fn arch_same_region_as(cap1: &Capability, cap2: &Capability) -> (r: bool)
    requires
        cap1.is_arch_cap_spec(),
        cap1.cap_wf(),
        cap2.cap_wf(),
    ensures
        r == arch_same_region_as_spec(*cap1, *cap2),
{
    match cap1 {
        Capability::Frame { base, size, .. } => {
            match cap2 {
                Capability::Frame { base: b2, size: s2, .. } => {
                    let bot_a = *base;
                    let bot_b = *b2;
                    let top_a = bot_a + mask_bits(page_bits(*size));
                    let top_b = bot_b + mask_bits(page_bits(*s2));
                    bot_a <= bot_b && top_a >= top_b && bot_b <= top_b
                },
                _ => false,
            }
        },
        Capability::PageTable { base, .. } => {
            match cap2 {
                Capability::PageTable { base: b2, .. } => *b2 == *base,
                _ => false,
            }
        },
        Capability::VSpace { base, .. } => {
            match cap2 {
                Capability::VSpace { base: b2, .. } => *b2 == *base,
                _ => false,
            }
        },
        Capability::AsidControl => cap2.get_tag() == CapTag::AsidControl,
        Capability::AsidPool { pool } => {
            match cap2 {
                Capability::AsidPool { pool: p2 } => *p2 == *pool,
                _ => false,
            }
        },
        _ => false,
    }
}

/// Object equivalence for architecture capabilities; the capability on the
/// left must be architecture-specific.
pub fn arch_same_object_as(cap1: &Capability, cap2: &Capability) -> (r: bool)
    requires
        cap1.is_arch_cap_spec(),
        cap1.cap_wf(),
        cap2.cap_wf(),
    ensures
        r == arch_same_object_as_spec(*cap1, *cap2),
{
    match cap1 {
        Capability::Frame { base, size, is_device, .. } => {
            match cap2 {
                Capability::Frame { base: b2, size: s2, is_device: d2, .. } => {
                    *base == *b2 && *size == *s2 && *is_device == *d2
                },
                _ => arch_same_region_as(cap1, cap2),
            }
        },
        _ => arch_same_region_as(cap1, cap2),
    }
}

} // verus!
