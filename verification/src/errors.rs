//! The error taxonomy shared by every registration, map and program
//! operation, together with the `SysResult` shape the control plane returns.

use vstd::prelude::*;

verus! {

/// Why an operation was refused.
#[derive(Clone, Copy, Debug, PartialEq, Eq, Structural)]
pub enum SysError {
    /// A bad or unsupported instruction, map type, key size, attach target
    /// or bytecode container.
    InvalidArgument,
    /// An unknown handle, an unresolved symbol, an unregistered probe, a
    /// missing map entry, or the map-iteration terminator.
    NotFound,
    /// A probe is already registered at the requested address.
    AlreadyExists,
    /// A kretprobe still has calls in flight and cannot be removed yet.
    Busy,
}

/// Result shape of the control-plane operations: a small non-negative
/// payload (a handle, a count, or zero) or an error of the taxonomy.
pub type SysResult = Result<u64, SysError>;

} // verus!
