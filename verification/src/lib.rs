//! Capability-management core of a microkernel.
//!
//! The crate models the capability value type, the capability-derivation tree
//! (a doubly linked list threaded through an arena of slots), the
//! insert/move/swap/delete protocol that maintains the tree invariants, the
//! preemptible deletion protocol built around transient zombie capabilities,
//! and the guarded capability-space address resolver.

pub mod arch;
pub mod capability;
pub mod cte;
pub mod deletion;
pub mod exception;
pub mod resolve;
