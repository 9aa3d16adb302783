//! The two ways in which a request can be refused.

use vstd::prelude::*;

verus! {

/// Why an operation produced no commitment.
#[derive(Clone, Copy, Debug, PartialEq, Eq, Structural)]
pub enum CommitError {
    /// A count or an index is outside what the scheme accepts.
    InvalidInput,
    /// A byte buffer is not the encoding of a field element or a curve point.
    DecodingError,
}

} // verus!
