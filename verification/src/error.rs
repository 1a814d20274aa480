//! The error that a bounded movement reports.

use vstd::prelude::*;

verus! {

/// Why a stream refused to be built or moved.
#[derive(Debug, Clone, Copy, PartialEq, Eq, Structural)]
pub enum StreamError {
    /// The requested offset lies before the start or after the end of the
    /// buffer.
    OutOfRange,
}

} // verus!
