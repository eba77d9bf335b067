use vstd::prelude::*;

verus! {

/// The failures of the memory subsystem.
#[derive(Debug, Clone, Copy, PartialEq, Eq, Structural)]
pub enum MemoryError {
    /// The video window does not fit inside the address space.
    InvalidLayout,
    /// A byte offset lies at or past the end of the address space.
    OutOfBounds,
    /// A holder of the lock gave it up abnormally; the contents are not trusted.
    LockPoisoned,
    /// An inspector asked to jump to an address outside the memory.
    InvalidAddress,
}

} // verus!
