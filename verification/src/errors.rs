//! The error kinds an operation can report. Validation errors are detected
//! before any mutation: a failed operation leaves the registry untouched.

use vstd::prelude::*;

verus! {

/// Why an operation was refused. The first six mirror the engine's own
/// validation and authorization rules; `AlreadyExists` and `NotFound` are
/// the record store's refusals, surfaced unchanged.
#[derive(Clone, Copy, PartialEq, Eq, Structural, Debug)]
pub enum VanishError {
    /// A repository name longer than 64 bytes.
    NameTooLong,
    /// A repository description longer than 256 bytes.
    DescriptionTooLong,
    /// An empty repository name.
    NameEmpty,
    /// A head commit fingerprint whose length is not exactly 40.
    InvalidCommitHash,
    /// A content-location string longer than 64 bytes.
    InvalidIpfsCid,
    /// The caller is not the identity the record's address and owner
    /// field demand, or a re-derived address does not match.
    Unauthorized,
    /// A record already lives at the derived address.
    AlreadyExists,
    /// No record lives at the given address.
    NotFound,
}

} // verus!
