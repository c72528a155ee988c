use vstd::prelude::*;

verus! {

/// The ways a clone run can fail. Every error is terminal for the current
/// run: no retries are performed inside the engine.
#[derive(Debug, Clone, Copy, PartialEq, Eq, Structural)]
pub enum CloneError {
    /// A read of the underlying stream failed for an unspecified reason.
    Io,
    /// The source capacity exceeds the destination capacity under a mode
    /// that copies the full extent; detected before any byte is written.
    DiskSizeMismatch,
    /// The partition table region is missing, or a rescaled partition
    /// length cannot be represented in its 32-bit field.
    InvalidLayout,
    /// An unreadable region was hit while streaming; carries the number of
    /// bytes that had already been copied when the read failed.
    BadSector(u64),
}

} // verus!
