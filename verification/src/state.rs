use vstd::prelude::*;

verus! {

/// The deterministic address of a record in the store.
///
/// An address is derived from a namespace and the owning parties, and two
/// addresses are equal exactly when their namespace and parties are equal:
/// that equivalence is the sole mechanism the services use to reach "the
/// right" record, so the model represents an address directly as the
/// namespace together with its key parts.
#[derive(Clone, Copy, PartialEq, Eq, Structural, Debug)]
pub enum RecordAddress {
    /// Address of the identity record owned by the given party.
    Identity(u64),
    /// Address of the credit-score record owned by the given party.
    Score(u64),
    /// Address of the transfer request from the first party to the second.
    Transfer(u64, u64),
}

pub open spec fn spec_identity_address(owner: u64) -> RecordAddress {
    RecordAddress::Identity(owner)
}

/// Derives the address of the identity record owned by `owner`.
#[verifier::when_used_as_spec(spec_identity_address)]
pub fn identity_address(owner: u64) -> (a: RecordAddress)
    ensures
        a == spec_identity_address(owner),
{
    RecordAddress::Identity(owner)
}

pub open spec fn spec_score_address(owner: u64) -> RecordAddress {
    RecordAddress::Score(owner)
}

/// Derives the address of the credit-score record owned by `owner`.
#[verifier::when_used_as_spec(spec_score_address)]
pub fn score_address(owner: u64) -> (a: RecordAddress)
    ensures
        a == spec_score_address(owner),
{
    RecordAddress::Score(owner)
}

pub open spec fn spec_transfer_address(from_owner: u64, to_owner: u64) -> RecordAddress {
    RecordAddress::Transfer(from_owner, to_owner)
}

/// Derives the address of the transfer request from `from_owner` to `to_owner`.
#[verifier::when_used_as_spec(spec_transfer_address)]
pub fn transfer_address(from_owner: u64, to_owner: u64) -> (a: RecordAddress)
    ensures
        a == spec_transfer_address(from_owner, to_owner),
{
    RecordAddress::Transfer(from_owner, to_owner)
}

/// Address derivation is injective: two derived addresses are equal if and
/// only if their namespaces and key parts are equal. The other services rely
/// on this to authorize access to linked records.
pub proof fn lemma_address_derivation_injective(a: u64, b: u64, c: u64, d: u64)
    ensures
        (spec_identity_address(a) == spec_identity_address(b)) == (a == b),
        (spec_score_address(a) == spec_score_address(b)) == (a == b),
        (spec_transfer_address(a, b) == spec_transfer_address(c, d)) == (a == c && b == d),
        spec_identity_address(a) != spec_score_address(b),
        spec_identity_address(a) != spec_transfer_address(b, c),
        spec_score_address(a) != spec_transfer_address(b, c),
{
}

/// A party's identity record.
#[derive(Clone, Copy, PartialEq, Eq, Debug)]
pub struct IdentityAccount {
    /// The controlling party; immutable once the record is created.
    pub owner: u64,
    /// Logical creation timestamp; propagated verbatim through transfers.
    pub created_at: i64,
    /// Whether the identity is currently verified; starts false.
    pub verified: bool,
    /// Set exactly when `verified` flips true, cleared when it flips false.
    pub verified_at: Option<i64>,
}

impl IdentityAccount {
    /// The stored timestamp is present exactly when the identity is verified.
    pub open spec fn wf(self) -> bool {
        self.verified_at.is_some() == self.verified
    }
}

/// The tier a score falls in.
#[derive(Clone, Copy, PartialEq, Eq, Structural, Debug)]
pub enum ScoreLevel {
    Low,
    Medium,
    High,
}

impl ScoreLevel {
    pub open spec fn spec_as_str(self) -> &'static str {
        match self {
            ScoreLevel::Low => "Low",
            ScoreLevel::Medium => "Medium",
            ScoreLevel::High => "High",
        }
    }

    /// The tier's display name.
    pub fn as_str(self) -> (s: &'static str)
        ensures
            s == self.spec_as_str(),
    {
        match self {
            ScoreLevel::Low => "Low",
            ScoreLevel::Medium => "Medium",
            ScoreLevel::High => "High",
        }
    }
}

/// A party's credit-score record.
#[derive(Clone, Copy, PartialEq, Eq, Structural, Debug)]
pub struct CreditScoreAccount {
    /// Address of the identity record the score was computed for.
    pub identity: RecordAddress,
    /// The computed score, in the documented range.
    pub score: u8,
    /// The tier derived from `score`.
    pub score_level: ScoreLevel,
    /// Timestamp of the last computation.
    pub calculated_at: i64,
}

/// A pending request to transfer an identity between two parties.
///
/// Created by `initiate_transfer` and destroyed by exactly one of
/// `claim_transfer` or `cancel_transfer`; never mutated otherwise.
#[derive(Clone, Copy, PartialEq, Eq, Structural, Debug)]
pub struct TransferRequest {
    /// The party giving the identity up.
    pub from_owner: u64,
    /// The party designated to claim it.
    pub to_owner: u64,
    /// Address of the identity record being transferred.
    pub identity: RecordAddress,
    /// When the request was created.
    pub created_at: i64,
    /// Deadline: the request is claimable while `now <= expires_at`.
    pub expires_at: i64,
}

} // verus!
