//! The capability value type: a tagged record describing a kernel object
//! reference plus rights and metadata, with the kind-specific accessors,
//! the region/object equivalence predicates and the revocability rule.

use vstd::prelude::*;

use crate::arch::{
    arch_same_object_as, arch_same_object_as_spec, arch_same_region_as, arch_same_region_as_spec,
    get_cap_ptr,
};

verus! {

/// Width of a machine word in bits.
pub const WORD_BITS: usize = 64;
/// log2 of `WORD_BITS`; shift amounts are taken modulo `WORD_BITS`.
pub const WORD_RADIX: usize = 6;
/// log2 of the byte size of one capability-table slot.
pub const SLOT_BITS: usize = 5;
/// log2 of the byte size of an endpoint object.
pub const ENDPOINT_BITS: usize = 4;
/// log2 of the byte size of a notification object.
pub const NOTIFICATION_BITS: usize = 5;
/// log2 of the byte size of a reply object.
pub const REPLY_BITS: usize = 5;
/// log2 of the byte size of a page table.
pub const PT_SIZE_BITS: usize = 12;
/// Smallest block size an untyped capability may cover, in bits.
pub const MIN_UNTYPED_BITS: usize = 4;
/// Largest block size an untyped capability may cover, in bits.
pub const MAX_UNTYPED_BITS: usize = 47;

/// The kind tag of a capability.
#[derive(Clone, Copy, PartialEq, Eq, Structural, Debug)]
pub enum CapTag {
    Null,
    Untyped,
    Endpoint,
    Notification,
    CNode,
    Thread,
    Zombie,
    Reply,
    IrqControl,
    IrqHandler,
    Domain,
    AsidControl,
    SchedContext,
    Frame,
    PageTable,
    VSpace,
    AsidPool,
}

/// The page-size class of a frame capability.
#[derive(Clone, Copy, PartialEq, Eq, Structural, Debug)]
pub enum FrameSize {
    Small,
    Mega,
    Giga,
}

/// Access rights carried by a frame capability.
#[derive(Clone, Copy, PartialEq, Eq, Structural, Debug)]
pub struct VmRights {
    pub read: bool,
    pub write: bool,
}

/// A rights mask supplied by a caller; masking can only remove rights.
#[derive(Clone, Copy, PartialEq, Eq, Structural, Debug)]
pub struct CapRights {
    pub allow_read: bool,
    pub allow_write: bool,
}

/// A capability: a fixed-size tagged record, copied freely as a value.
///
/// Pointer-valued fields name a kernel object within a 64-bit address space;
/// for `CNode` and `Zombie` the pointer is the index of the first of a run of
/// slots in the slot arena.
#[derive(Clone, Copy, PartialEq, Eq, Structural, Debug)]
pub enum Capability {
    Null,
    Untyped { ptr: u64, block_size: usize, free_index: u64 },
    Endpoint { ptr: u64, badge: u64 },
    Notification { ptr: u64, badge: u64 },
    CNode { ptr: u64, radix: usize, guard: u64, guard_size: usize },
    Thread { ptr: u64 },
    Zombie { ptr: u64, count: usize, zombie_bits: usize },
    Reply { ptr: u64 },
    IrqControl,
    IrqHandler { irq: u64 },
    Domain,
    AsidControl,
    SchedContext { ptr: u64 },
    Frame {
        base: u64,
        size: FrameSize,
        rights: VmRights,
        is_device: bool,
        mapped_address: u64,
        mapped_asid: u64,
    },
    PageTable { base: u64, is_mapped: bool },
    VSpace { base: u64, is_mapped: bool },
    AsidPool { pool: u64 },
}

/// The low `n` bits set: the byte-span mask `2^n - 1`.
pub open spec fn mask_of(n: usize) -> u64
    recommends
        n < WORD_BITS,
{
    (((1u64 << (n as u64)) as int) - 1) as u64
}

/// Computes `mask_of(n)`.
pub fn mask_bits(n: usize) -> (r: u64)
    requires
        n < WORD_BITS,
    ensures
        r == mask_of(n),
{
    let sh = n as u64;
    assert(sh < 64 ==> (1u64 << sh) >= 1u64) by (bit_vector);
    (1u64 << sh) - 1
}

/// Largest value the free index of an untyped capability of the given block
/// size can take: the whole block is in use past this index.
pub open spec fn max_free_index_of(block_size: usize) -> u64
    recommends
        MIN_UNTYPED_BITS <= block_size < WORD_BITS,
{
    1u64 << ((block_size - MIN_UNTYPED_BITS) as u64)
}

/// Computes `max_free_index_of(block_size)`.
pub fn max_free_index(block_size: usize) -> (r: u64)
    requires
        MIN_UNTYPED_BITS <= block_size < WORD_BITS,
    ensures
        r == max_free_index_of(block_size),
{
    1u64 << ((block_size - MIN_UNTYPED_BITS) as u64)
}

impl Capability {
    /// The kind tag of this capability.
    pub open spec fn tag_spec(&self) -> CapTag {
        match self {
            Capability::Null => CapTag::Null,
            Capability::Untyped { .. } => CapTag::Untyped,
            Capability::Endpoint { .. } => CapTag::Endpoint,
            Capability::Notification { .. } => CapTag::Notification,
            Capability::CNode { .. } => CapTag::CNode,
            Capability::Thread { .. } => CapTag::Thread,
            Capability::Zombie { .. } => CapTag::Zombie,
            Capability::Reply { .. } => CapTag::Reply,
            Capability::IrqControl => CapTag::IrqControl,
            Capability::IrqHandler { .. } => CapTag::IrqHandler,
            Capability::Domain => CapTag::Domain,
            Capability::AsidControl => CapTag::AsidControl,
            Capability::SchedContext { .. } => CapTag::SchedContext,
            Capability::Frame { .. } => CapTag::Frame,
            Capability::PageTable { .. } => CapTag::PageTable,
            Capability::VSpace { .. } => CapTag::VSpace,
            Capability::AsidPool { .. } => CapTag::AsidPool,
        }
    }

    /// Returns the kind tag.
    #[verifier::when_used_as_spec(tag_spec)]
    pub fn get_tag(&self) -> (t: CapTag)
        ensures
            t == self.tag_spec(),
    {
        match self {
            Capability::Null => CapTag::Null,
            Capability::Untyped { .. } => CapTag::Untyped,
            Capability::Endpoint { .. } => CapTag::Endpoint,
            Capability::Notification { .. } => CapTag::Notification,
            Capability::CNode { .. } => CapTag::CNode,
            Capability::Thread { .. } => CapTag::Thread,
            Capability::Zombie { .. } => CapTag::Zombie,
            Capability::Reply { .. } => CapTag::Reply,
            Capability::IrqControl => CapTag::IrqControl,
            Capability::IrqHandler { .. } => CapTag::IrqHandler,
            Capability::Domain => CapTag::Domain,
            Capability::AsidControl => CapTag::AsidControl,
            Capability::SchedContext { .. } => CapTag::SchedContext,
            Capability::Frame { .. } => CapTag::Frame,
            Capability::PageTable { .. } => CapTag::PageTable,
            Capability::VSpace { .. } => CapTag::VSpace,
            Capability::AsidPool { .. } => CapTag::AsidPool,
        }
    }

    /// An architecture-specific kind: its pointer extraction, rights masking
    /// and derive rules go through the architecture layer.
    pub open spec fn is_arch_cap_spec(&self) -> bool {
        match self {
            Capability::Frame { .. } => true,
            Capability::PageTable { .. } => true,
            Capability::VSpace { .. } => true,
            Capability::AsidControl => true,
            Capability::AsidPool { .. } => true,
            _ => false,
        }
    }

    /// Whether this is an architecture-specific capability.
    #[verifier::when_used_as_spec(is_arch_cap_spec)]
    pub fn is_arch_cap(&self) -> (r: bool)
        ensures
            r == self.is_arch_cap_spec(),
    {
        match self {
            Capability::Frame { .. } => true,
            Capability::PageTable { .. } => true,
            Capability::VSpace { .. } => true,
            Capability::AsidControl => true,
            Capability::AsidPool { .. } => true,
            _ => false,
        }
    }

    /// log2 of the byte span the capability covers, for the kinds whose span
    /// takes part in region containment; zero for the rest.
    pub open spec fn size_bits_spec(&self) -> usize {
        match self {
            Capability::Untyped { block_size, .. } => *block_size,
            Capability::Endpoint { .. } => ENDPOINT_BITS,
            Capability::Notification { .. } => NOTIFICATION_BITS,
            Capability::CNode { radix, .. } => (*radix + SLOT_BITS) as usize,
            Capability::PageTable { .. } => PT_SIZE_BITS,
            Capability::Reply { .. } => REPLY_BITS,
            _ => 0,
        }
    }

    /// Returns log2 of the byte span the capability covers.
    pub fn get_cap_size_bits(&self) -> (r: usize)
        requires
            self.cap_wf(),
        ensures
            r == self.size_bits_spec(),
    {
        match self {
            Capability::Untyped { block_size, .. } => *block_size,
            Capability::Endpoint { .. } => ENDPOINT_BITS,
            Capability::Notification { .. } => NOTIFICATION_BITS,
            Capability::CNode { radix, .. } => *radix + SLOT_BITS,
            Capability::PageTable { .. } => PT_SIZE_BITS,
            Capability::Reply { .. } => REPLY_BITS,
            _ => 0,
        }
    }

    /// A kind that denotes a real memory/object footprint; only physical
    /// capabilities take part in region-overlap checks.
    pub open spec fn is_physical_spec(&self) -> bool {
        match self {
            Capability::Untyped { .. } => true,
            Capability::Endpoint { .. } => true,
            Capability::Notification { .. } => true,
            Capability::CNode { .. } => true,
            Capability::Frame { .. } => true,
            Capability::AsidPool { .. } => true,
            Capability::PageTable { .. } => true,
            Capability::Zombie { .. } => true,
            Capability::Thread { .. } => true,
            _ => false,
        }
    }

    /// Whether the capability denotes a real memory/object footprint.
    #[verifier::when_used_as_spec(is_physical_spec)]
    pub fn get_cap_is_physical(&self) -> (r: bool)
        ensures
            r == self.is_physical_spec(),
    {
        match self {
            Capability::Untyped { .. } => true,
            Capability::Endpoint { .. } => true,
            Capability::Notification { .. } => true,
            Capability::CNode { .. } => true,
            Capability::Frame { .. } => true,
            Capability::AsidPool { .. } => true,
            Capability::PageTable { .. } => true,
            Capability::Zombie { .. } => true,
            Capability::Thread { .. } => true,
            _ => false,
        }
    }

    /// Base pointer / object identity of the capability; zero for the kinds
    /// that name no object.
    pub open spec fn cap_ptr_spec(&self) -> u64 {
        match self {
            Capability::Untyped { ptr, .. } => *ptr,
            Capability::Endpoint { ptr, .. } => *ptr,
            Capability::Notification { ptr, .. } => *ptr,
            Capability::CNode { ptr, .. } => *ptr,
            Capability::Thread { ptr } => *ptr,
            Capability::Zombie { ptr, .. } => *ptr,
            Capability::Reply { ptr } => *ptr,
            Capability::SchedContext { ptr } => *ptr,
            Capability::Frame { base, .. } => *base,
            Capability::PageTable { base, .. } => *base,
            Capability::VSpace { base, .. } => *base,
            Capability::AsidPool { pool } => *pool,
            _ => 0,
        }
    }

    /// Well-formedness of a capability value: the machine-limit side
    /// conditions under which the region arithmetic cannot overflow and the
    /// guard/radix fields of a capability table are meaningful.
    pub open spec fn cap_wf(&self) -> bool {
        &&& (self.is_physical_spec() ==> {
            &&& self.size_bits_spec() < WORD_BITS
            &&& self.cap_ptr_spec() + mask_of(self.size_bits_spec()) <= u64::MAX
        })
        &&& match self {
            Capability::Untyped { ptr: _, block_size, free_index } => {
                &&& MIN_UNTYPED_BITS <= *block_size <= MAX_UNTYPED_BITS
                &&& *free_index <= max_free_index_of(*block_size)
            },
            Capability::CNode { ptr: _, radix, guard, guard_size } => {
                &&& 1 <= *radix + *guard_size
                &&& *radix + *guard_size <= WORD_BITS
                &&& *guard_size < WORD_BITS
                &&& *radix + SLOT_BITS < WORD_BITS
                &&& *guard <= mask_of(*guard_size)
            },
            Capability::Frame { base, size, .. } => {
                base + mask_of(page_bits_for_size(*size)) <= u64::MAX
            },
            _ => true,
        }
    }
}

/// log2 of the byte size of a page of the given size class.
pub open spec fn page_bits_for_size(size: FrameSize) -> usize {
    match size {
        FrameSize::Small => 12,
        FrameSize::Mega => 21,
        FrameSize::Giga => 30,
    }
}

/// Computes `page_bits_for_size(size)`.
pub fn page_bits(size: FrameSize) -> (r: usize)
    ensures
        r == page_bits_for_size(size),
{
    match size {
        FrameSize::Small => 12,
        FrameSize::Mega => 21,
        FrameSize::Giga => 30,
    }
}

/// The packed word a caller supplies to set a capability table's guard:
/// the low six bits hold the guard size, the rest the guard value.
#[derive(Clone, Copy, PartialEq, Eq, Structural, Debug)]
pub struct CNodeCapData {
    pub word: u64,
}

impl CNodeCapData {
    /// Wraps a raw data word.
    pub fn new(data: u64) -> (s: Self)
        ensures
            s.word == data,
    {
        CNodeCapData { word: data }
    }

    /// The guard value carried in the word, before truncation to the guard
    /// size.
    pub open spec fn guard_spec(&self) -> u64 {
        (self.word & 0xffff_ffff_ffff_ffc0u64) >> 6u64
    }

    /// Returns the guard value carried in the word.
    pub fn get_guard(&self) -> (r: u64)
        ensures
            r == self.guard_spec(),
    {
        (self.word & 0xffff_ffff_ffff_ffc0u64) >> 6u64
    }

    /// The guard size carried in the low six bits of the word.
    pub open spec fn guard_size_spec(&self) -> usize {
        (self.word & 0x3fu64) as usize
    }

    /// Returns the guard size carried in the word.
    pub fn get_guard_size(&self) -> (r: usize)
        ensures
            r == self.guard_size_spec(),
    {
        (self.word & 0x3fu64) as usize
    }
}

/// Badge carried by an endpoint or notification capability; zero for every
/// other kind (and for the unbadged trunk).
pub open spec fn badge_of(c: Capability) -> u64 {
    match c {
        Capability::Endpoint { badge, .. } => badge,
        Capability::Notification { badge, .. } => badge,
        _ => 0,
    }
}

/// What `update_data` produces: badges are write-once (a set badge can never
/// be replaced), and a capability table's guard is repacked from the data
/// word, rejecting guards that together with the radix exceed the word width.
pub open spec fn update_data_spec(c: Capability, preserve: bool, new_data: u64) -> Capability {
    if c.is_arch_cap_spec() {
        c
    } else {
        match c {
            Capability::Endpoint { ptr, badge } => {
                if !preserve && badge == 0 {
                    (Capability::Endpoint { ptr, badge: new_data })
                } else {
                    Capability::Null
                }
            },
            Capability::Notification { ptr, badge } => {
                if !preserve && badge == 0 {
                    (Capability::Notification { ptr, badge: new_data })
                } else {
                    Capability::Null
                }
            },
            Capability::CNode { ptr, radix, guard: _, guard_size: _ } => {
                let w = (CNodeCapData { word: new_data });
                let gs = w.guard_size_spec();
                if gs + radix > WORD_BITS {
                    Capability::Null
                } else {
                    (Capability::CNode { ptr, radix, guard: w.guard_spec() & mask_of(gs), guard_size: gs })
                }
            },
            _ => c,
        }
    }
}

impl Capability {
    /// Rewrites the caller-controlled data of a capability: sets the badge of
    /// an unbadged endpoint or notification (unless `preserve` is set),
    /// repacks a capability table's guard, and leaves every other kind
    /// untouched; combinations that would break write-once badges or exceed
    /// the word width produce a null capability.
    pub fn update_data(&self, preserve: bool, new_data: u64) -> (c: Capability)
        requires
            self.cap_wf(),
        ensures
            c == update_data_spec(*self, preserve, new_data),
    {
        if self.is_arch_cap() {
            return *self;
        }
        match self {
            Capability::Endpoint { ptr, badge } => {
                if !preserve && *badge == 0 {
                    Capability::Endpoint { ptr: *ptr, badge: new_data }
                } else {
                    Capability::Null
                }
            },
            Capability::Notification { ptr, badge } => {
                if !preserve && *badge == 0 {
                    Capability::Notification { ptr: *ptr, badge: new_data }
                } else {
                    Capability::Null
                }
            },
            Capability::CNode { ptr, radix, .. } => {
                let w = CNodeCapData::new(new_data);
                let guard_size = w.get_guard_size();
                assert((new_data & 0x3fu64) <= 0x3fu64) by (bit_vector);
                if guard_size + *radix > WORD_BITS {
                    return Capability::Null;
                }
                let g = w.get_guard();
                let m = mask_bits(guard_size);
                assert((g & m) <= m) by (bit_vector);
                let guard = g & m;
                Capability::CNode { ptr: *ptr, radix: *radix, guard, guard_size }
            },
            _ => *self,
        }
    }
}

/// Region equivalence: whether the object `cap2` names lies within the region
/// `cap1` names. An untyped capability contains any physical capability whose
/// span lies inside its block; most kinds compare by identity; a capability
/// table's guard is deliberately ignored; architecture kinds delegate to the
/// architecture layer.
pub open spec fn same_region_as_spec(cap1: Capability, cap2: Capability) -> bool {
    match cap1 {
        Capability::Untyped { ptr, block_size, .. } => {
            &&& cap2.is_physical_spec()
            &&& ptr <= cap2.cap_ptr_spec()
            &&& cap2.cap_ptr_spec() + mask_of(cap2.size_bits_spec()) <= ptr + mask_of(block_size)
        },
        Capability::Endpoint { ptr, .. } => {
            cap2 matches Capability::Endpoint { ptr: p2, .. } && p2 == ptr
        },
        Capability::Notification { ptr, .. } => {
            cap2 matches Capability::Notification { ptr: p2, .. } && p2 == ptr
        },
        Capability::Thread { ptr } => {
            cap2 matches Capability::Thread { ptr: p2 } && p2 == ptr
        },
        Capability::CNode { ptr, radix, .. } => {
            cap2 matches Capability::CNode { ptr: p2, radix: r2, .. } && p2 == ptr && r2 == radix
        },
        Capability::Domain => cap2 is Domain,
        Capability::IrqControl => cap2 is IrqControl || cap2 is IrqHandler,
        Capability::IrqHandler { irq } => {
            cap2 matches Capability::IrqHandler { irq: i2 } && i2 == irq
        },
        Capability::Frame { .. } => arch_same_region_as_spec(cap1, cap2),
        Capability::PageTable { .. } => arch_same_region_as_spec(cap1, cap2),
        Capability::VSpace { .. } => arch_same_region_as_spec(cap1, cap2),
        Capability::AsidControl => arch_same_region_as_spec(cap1, cap2),
        Capability::AsidPool { .. } => arch_same_region_as_spec(cap1, cap2),
        _ => false,
    }
}

/// Whether two capabilities name overlapping memory / the same region.
pub fn same_region_as(cap1: &Capability, cap2: &Capability) -> (r: bool)
    requires
        cap1.cap_wf(),
        cap2.cap_wf(),
    ensures
        r == same_region_as_spec(*cap1, *cap2),
{
    match cap1 {
        Capability::Untyped { ptr, block_size, .. } => {
            if cap2.get_cap_is_physical() {
                let a_base = *ptr;
                let b_base = get_cap_ptr(cap2);
                let a_top = a_base + mask_bits(*block_size);
                let b_top = b_base + mask_bits(cap2.get_cap_size_bits());
                a_base <= b_base && b_top <= a_top && b_base <= b_top
            } else {
                false
            }
        },
        Capability::Endpoint { ptr, .. } => {
            match cap2 {
                Capability::Endpoint { ptr: p2, .. } => *p2 == *ptr,
                _ => false,
            }
        },
        Capability::Notification { ptr, .. } => {
            match cap2 {
                Capability::Notification { ptr: p2, .. } => *p2 == *ptr,
                _ => false,
            }
        },
        Capability::Thread { ptr } => {
            match cap2 {
                Capability::Thread { ptr: p2 } => *p2 == *ptr,
                _ => false,
            }
        },
        Capability::CNode { ptr, radix, .. } => {
            match cap2 {
                Capability::CNode { ptr: p2, radix: r2, .. } => *p2 == *ptr && *r2 == *radix,
                _ => false,
            }
        },
        Capability::Domain => cap2.get_tag() == CapTag::Domain,
        Capability::IrqControl => {
            cap2.get_tag() == CapTag::IrqControl || cap2.get_tag() == CapTag::IrqHandler
        },
        Capability::IrqHandler { irq } => {
            match cap2 {
                Capability::IrqHandler { irq: i2 } => *i2 == *irq,
                _ => false,
            }
        },
        Capability::Frame { .. }
        | Capability::PageTable { .. }
        | Capability::VSpace { .. }
        | Capability::AsidControl
        | Capability::AsidPool { .. } => arch_same_region_as(cap1, cap2),
        _ => false,
    }
}

/// Object equivalence: stricter than region equivalence. An untyped
/// capability is never the same object as anything (not even itself), and an
/// irq-control capability is never the same object as an irq-handler it can
/// derive; frames must also match in size and device flag.
pub open spec fn same_object_as_spec(cap1: Capability, cap2: Capability) -> bool {
    if cap1 is Untyped {
        false
    } else if cap1 is IrqControl && cap2 is IrqHandler {
        false
    } else if cap1.is_arch_cap_spec() && cap2.is_arch_cap_spec() {
        arch_same_object_as_spec(cap1, cap2)
    } else {
        same_region_as_spec(cap1, cap2)
    }
}

/// Whether two capabilities name the very same kernel object.
pub fn same_object_as(cap1: &Capability, cap2: &Capability) -> (r: bool)
    requires
        cap1.cap_wf(),
        cap2.cap_wf(),
    ensures
        r == same_object_as_spec(*cap1, *cap2),
{
    if cap1.get_tag() == CapTag::Untyped {
        return false;
    }
    if cap1.get_tag() == CapTag::IrqControl && cap2.get_tag() == CapTag::IrqHandler {
        return false;
    }
    if cap1.is_arch_cap() && cap2.is_arch_cap() {
        return arch_same_object_as(cap1, cap2);
    }
    same_region_as(cap1, cap2)
}

/// The revocability rule: a freshly badged endpoint or notification becomes a
/// revocable leaf, an irq-handler minted from irq-control is revocable, an
/// untyped capability always is, and nothing else (architecture capabilities
/// are never independently revocable through this path).
pub open spec fn is_cap_revocable_spec(derived_cap: Capability, src_cap: Capability) -> bool {
    if derived_cap.is_arch_cap_spec() {
        false
    } else {
        match derived_cap {
            Capability::Endpoint { badge, .. } => {
                src_cap matches Capability::Endpoint { badge: b2, .. } && badge != b2
            },
            Capability::Notification { badge, .. } => {
                src_cap matches Capability::Notification { badge: b2, .. } && badge != b2
            },
            Capability::IrqHandler { .. } => src_cap is IrqControl,
            Capability::Untyped { .. } => true,
            _ => false,
        }
    }
}

/// Whether a capability derived from `src_cap` is revocable on its own.
pub fn is_cap_revocable(derived_cap: &Capability, src_cap: &Capability) -> (r: bool)
    ensures
        r == is_cap_revocable_spec(*derived_cap, *src_cap),
{
    if derived_cap.is_arch_cap() {
        return false;
    }
    match derived_cap {
        Capability::Endpoint { badge, .. } => {
            match src_cap {
                Capability::Endpoint { badge: b2, .. } => *badge != *b2,
                _ => false,
            }
        },
        Capability::Notification { badge, .. } => {
            match src_cap {
                Capability::Notification { badge: b2, .. } => *badge != *b2,
                _ => false,
            }
        },
        Capability::IrqHandler { .. } => src_cap.get_tag() == CapTag::IrqControl,
        Capability::Untyped { .. } => true,
        _ => false,
    }
}

/// Law: minting an endpoint capability with badge `b2` from one with badge
/// `b1` yields a revocable capability exactly when the badges differ.
pub proof fn lemma_endpoint_revocability(ptr: u64, b1: u64, b2: u64)
    ensures
        is_cap_revocable_spec(
            Capability::Endpoint { ptr, badge: b2 },
            Capability::Endpoint { ptr, badge: b1 },
        ) == (b1 != b2),
{
}

} // verus!
