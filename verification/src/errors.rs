use vstd::prelude::*;

verus! {

/// Failure taxonomy of the device core.
///
/// Every error is returned synchronously to the immediate caller; a failed
/// operation has no partial effect on any buffer.
#[derive(Clone, Copy, Debug, PartialEq, Eq, Structural)]
pub enum VdevError {
    /// A buffer growth or initial allocation could not be satisfied.
    AllocationFailure,
    /// A requested offset cannot be represented in the native unsigned size
    /// type.
    InvalidOffset,
    /// `offset + length` exceeds the representable range during a write.
    OffsetOverflow,
    /// Registering a device node with the host failed during construction.
    RegistrationFailure,
}

} // verus!
