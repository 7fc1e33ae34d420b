//! Targets of a seek in a byte stream.

use vstd::prelude::*;

verus! {

/// Where a seek is measured from.
#[derive(Clone, Copy, Debug, PartialEq, Eq)]
pub enum SeekFrom {
    /// An absolute offset from the start of the stream.
    Start(u64),
    /// An offset relative to the end of the stream.
    End(i64),
    /// An offset relative to the current position.
    Current(i64),
}

} // verus!
