//! The ways in which a byte source or a byte sink can refuse an operation.

use vstd::prelude::*;

verus! {

/// Why a read or a write did not take place.
#[derive(Clone, Copy, Debug, PartialEq, Eq, Structural)]
pub enum IoError {
    /// The source cannot deliver as many bytes as were asked for.
    UnexpectedEof,
    /// The write would end beyond the largest offset the sink can address.
    InvalidInput,
}

} // verus!
