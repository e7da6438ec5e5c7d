//! Layered error types: backing-store failures and the errors the query
//! operations surface to the request layer.

use vstd::prelude::*;

verus! {

/// Failure reported by the backing store (connectivity, query failure).
/// Absence of a block is never an error; it is an empty result.
#[derive(Clone, Copy, Debug, PartialEq, Eq, Structural)]
pub enum StorageError {
    Unavailable,
}

/// Error surfaced by the query operations.
#[derive(Clone, Copy, Debug, PartialEq, Eq, Structural)]
pub enum Error {
    /// The position string is neither numeric nor a recognized keyword;
    /// a client error, never retried.
    InvalidBlockPosition,
    /// A backing-store failure, wrapped losslessly; a server-side error.
    Storage(StorageError),
}

impl Error {
    /// Wrap a backing-store failure without losing its kind.
    pub fn storage(err: StorageError) -> (r: Error)
        ensures
            r == Error::Storage(err),
    {
        Error::Storage(err)
    }
}

} // verus!
