use vstd::prelude::*;

verus! {

/// The ways an operation on the ledger can fail. Every operation is atomic:
/// on any error the store is left exactly as it was.
#[derive(Clone, Copy, PartialEq, Eq, Structural, Debug)]
pub enum IdentityScoreError {
    /// The caller does not match the record's owner (or, for a claim, the
    /// request's designated recipient), or a record's cross-reference does
    /// not match the expected linked record.
    Unauthorized,
    /// Score computation or transfer initiation was attempted on an
    /// identity whose `verified` flag is false.
    IdentityNotVerified,
    /// A claim was attempted strictly after the request's `expires_at`.
    TransferExpired,
    /// A record already exists at the address a creation would use.
    AlreadyExists,
    /// A record required by the operation does not exist.
    NotFound,
}

} // verus!
