//! The three-way result discipline of the capability core: success,
//! recoverable failure (a reportable condition code), and fatal invariant
//! violation, which aborts the current operation.

use vstd::prelude::*;

verus! {

/// Outcome of a capability operation.
///
/// `Preempted` is a first-class outcome, not an error: a long-running
/// operation returns it at a checkpoint and is resumable, because all of its
/// state lives in the slots themselves.
#[derive(Clone, Copy, PartialEq, Eq, Structural, Debug)]
pub enum Exception {
    /// The operation completed.
    NoError,
    /// A collaborator handed back a value that breaks an invariant the
    /// protocol relies on; the current operation is abandoned.
    Fault,
    /// A capability-space address did not resolve.
    LookupFault,
    /// A recoverable condition reported to the system-call layer.
    SyscallError,
    /// A pending interrupt was detected at a preemption point; the caller
    /// resumes by re-invoking the same operation.
    Preempted,
}

} // verus!
