//! The error taxonomy of the positional I/O operations.

use vstd::prelude::*;

verus! {

/// The failure kinds a positional or sequential transfer can report.
#[derive(Clone, Copy, Debug, PartialEq, Eq, Structural)]
pub enum IoError {
    /// A single call was interrupted by a transient external signal; the
    /// exact-transfer loops retry it in place and never surface it.
    Interrupted,
    /// An exact read exhausted the source before the buffer was filled.
    UnexpectedEndOfData,
    /// An exact write observed a single call that made no progress while
    /// bytes remained to be written.
    WriteZero,
    /// A seek did not land on the requested offset.
    SeekMismatch,
    /// The bridge's lock is tainted or could not be acquired; the wrapped
    /// resource was not touched.
    LockUnavailable,
    /// Any other failure of the underlying resource, propagated unchanged.
    Other,
}

} // verus!
