use crate::constants::{IDENTITY_DEPOSIT, SCORE_DEPOSIT, TRANSFER_DEPOSIT, TRANSFER_EXPIRY_SECONDS};
use crate::errors::IdentityScoreError;
use crate::state::{
    identity_address, spec_identity_address, CreditScoreAccount, IdentityAccount, TransferRequest,
};
use crate::store::{credited, RecordStore, StoreState};
use vstd::prelude::*;

verus! {

/// What `initiate_transfer` does to the store: the owner of a verified
/// identity opens a transfer request towards `to_owner`, claimable for one
/// expiry window; a second request for the same ordered pair while one is
/// pending is rejected, not refreshed.
pub open spec fn initiate_transfer_transition(
    s: StoreState,
    caller: u64,
    from_owner: u64,
    to_owner: u64,
    now: i64,
) -> (StoreState, Result<(), IdentityScoreError>) {
    if !s.identities.contains_key(from_owner) {
        (s, Err(IdentityScoreError::NotFound))
    } else if s.identities[from_owner].owner != caller {
        (s, Err(IdentityScoreError::Unauthorized))
    } else if !s.identities[from_owner].verified {
        (s, Err(IdentityScoreError::IdentityNotVerified))
    } else if s.transfers.contains_key((from_owner, to_owner)) {
        (s, Err(IdentityScoreError::AlreadyExists))
    } else {
        let request = TransferRequest {
            from_owner,
            to_owner,
            identity: spec_identity_address(from_owner),
            created_at: now,
            expires_at: (now + TRANSFER_EXPIRY_SECONDS) as i64,
        };
        (
            StoreState { transfers: s.transfers.insert((from_owner, to_owner), request), ..s },
            Ok(()),
        )
    }
}

/// Opens a transfer request for `from_owner`'s identity towards `to_owner`.
/// The caller must own the identity and it must be verified; at most one
/// request per ordered (from, to) pair may be pending at a time.
pub fn initiate_transfer(
    store: &mut RecordStore,
    caller: u64,
    from_owner: u64,
    to_owner: u64,
    now: i64,
) -> (r: Result<(), IdentityScoreError>)
    requires
        old(store).wf(),
        now + TRANSFER_EXPIRY_SECONDS <= i64::MAX,
    ensures
        final(store).wf(),
        final(store)@ == initiate_transfer_transition(old(store)@, caller, from_owner, to_owner, now).0,
        r == initiate_transfer_transition(old(store)@, caller, from_owner, to_owner, now).1,
{
    let identity = match store.get_identity(from_owner) {
        Some(rec) => *rec,
        None => {
            return Err(IdentityScoreError::NotFound);
        },
    };
    if identity.owner != caller {
        return Err(IdentityScoreError::Unauthorized);
    }
    if !identity.verified {
        return Err(IdentityScoreError::IdentityNotVerified);
    }
    if store.get_transfer(from_owner, to_owner).is_some() {
        return Err(IdentityScoreError::AlreadyExists);
    }
    store.set_transfer(
        from_owner,
        to_owner,
        TransferRequest {
            from_owner,
            to_owner,
            identity: identity_address(from_owner),
            created_at: now,
            expires_at: now + TRANSFER_EXPIRY_SECONDS,
        },
    );
    Ok(())
}

/// The migration a successful claim applies, as one atomic unit: the new
/// identity record is created for `to_owner` with the old record's history
/// copied verbatim, the old identity record is closed with its deposit
/// refunded to `from_owner`; if a score record backs the old identity it is
/// reopened under `to_owner` with identical score, level and timestamp and
/// its deposit refunded to `to_owner`; and the transfer request is closed
/// with its deposit refunded to `to_owner`.
pub open spec fn claim_transfer_effects(s: StoreState, from_owner: u64, to_owner: u64) -> StoreState {
    let old_identity = s.identities[from_owner];
    let new_identity = IdentityAccount {
        owner: to_owner,
        created_at: old_identity.created_at,
        verified: old_identity.verified,
        verified_at: old_identity.verified_at,
    };
    let s1 = StoreState { identities: s.identities.insert(to_owner, new_identity), ..s };
    let s2 = StoreState { identities: s1.identities.remove(from_owner), ..s1 };
    let s3 = credited(s2, from_owner, IDENTITY_DEPOSIT);
    let s4 = if s.scores.contains_key(from_owner) {
        let old_score = s.scores[from_owner];
        let new_score = CreditScoreAccount {
            identity: spec_identity_address(to_owner),
            score: old_score.score,
            score_level: old_score.score_level,
            calculated_at: old_score.calculated_at,
        };
        let t1 = StoreState { scores: s3.scores.insert(to_owner, new_score), ..s3 };
        let t2 = StoreState { scores: t1.scores.remove(from_owner), ..t1 };
        credited(t2, to_owner, SCORE_DEPOSIT)
    } else {
        s3
    };
    let s5 = StoreState { transfers: s4.transfers.remove((from_owner, to_owner)), ..s4 };
    credited(s5, to_owner, TRANSFER_DEPOSIT)
}

/// What `claim_transfer` does to the store: the request must exist for the
/// ordered pair, the old identity must exist, no identity record may stand
/// at the new owner's address, the deadline must not have passed (the bound
/// is inclusive), and the caller must be the request's designated recipient;
/// a score record backing the old identity must reference it. Then the
/// migration of `claim_transfer_effects` applies as a whole; on any failure
/// nothing changes.
pub open spec fn claim_transfer_transition(
    s: StoreState,
    caller: u64,
    from_owner: u64,
    to_owner: u64,
    now: i64,
) -> (StoreState, Result<(), IdentityScoreError>) {
    if !s.transfers.contains_key((from_owner, to_owner)) {
        (s, Err(IdentityScoreError::NotFound))
    } else if !s.identities.contains_key(from_owner) {
        (s, Err(IdentityScoreError::NotFound))
    } else if s.identities.contains_key(to_owner) {
        (s, Err(IdentityScoreError::AlreadyExists))
    } else if now > s.transfers[(from_owner, to_owner)].expires_at {
        (s, Err(IdentityScoreError::TransferExpired))
    } else if caller != s.transfers[(from_owner, to_owner)].to_owner {
        (s, Err(IdentityScoreError::Unauthorized))
    } else if s.scores.contains_key(from_owner) && s.scores[from_owner].identity
        != spec_identity_address(from_owner) {
        (s, Err(IdentityScoreError::Unauthorized))
    } else {
        (claim_transfer_effects(s, from_owner, to_owner), Ok(()))
    }
}

/// Validates the score record backing the identity being claimed and hands
/// its contents out: it must reference the old owner's identity record, or
/// the claim is unauthorized.
fn verify_and_extract_old_score(store: &RecordStore, from_owner: u64) -> (r: Result<
    CreditScoreAccount,
    IdentityScoreError,
>)
    requires
        store.wf(),
        store@.scores.contains_key(from_owner),
    ensures
        match r {
            Ok(score) => score == store@.scores[from_owner] && score.identity
                == spec_identity_address(from_owner),
            Err(e) => e == IdentityScoreError::Unauthorized && store@.scores[from_owner].identity
                != spec_identity_address(from_owner),
        },
{
    let score = match store.get_score(from_owner) {
        Some(rec) => *rec,
        None => {
            return Err(IdentityScoreError::Unauthorized);
        },
    };
    if score.identity != identity_address(from_owner) {
        return Err(IdentityScoreError::Unauthorized);
    }
    Ok(score)
}

/// Claims the pending transfer from `from_owner`, migrating the identity —
/// and its score record, if one exists — to `to_owner` as a single atomic
/// unit and closing the request. Only the designated recipient may claim,
/// and no later than the request's deadline (the bound is inclusive).
pub fn claim_transfer(
    store: &mut RecordStore,
    caller: u64,
    from_owner: u64,
    to_owner: u64,
    now: i64,
) -> (r: Result<(), IdentityScoreError>)
    requires
        old(store).wf(),
    ensures
        final(store).wf(),
        final(store)@ == claim_transfer_transition(old(store)@, caller, from_owner, to_owner, now).0,
        r == claim_transfer_transition(old(store)@, caller, from_owner, to_owner, now).1,
{
    let request = match store.get_transfer(from_owner, to_owner) {
        Some(req) => *req,
        None => {
            return Err(IdentityScoreError::NotFound);
        },
    };
    let old_identity = match store.get_identity(from_owner) {
        Some(rec) => *rec,
        None => {
            return Err(IdentityScoreError::NotFound);
        },
    };
    if store.get_identity(to_owner).is_some() {
        return Err(IdentityScoreError::AlreadyExists);
    }
    if now > request.expires_at {
        return Err(IdentityScoreError::TransferExpired);
    }
    if caller != request.to_owner {
        return Err(IdentityScoreError::Unauthorized);
    }
    let old_score = if store.get_score(from_owner).is_some() {
        match verify_and_extract_old_score(store, from_owner) {
            Ok(score) => Some(score),
            Err(e) => {
                return Err(e);
            },
        }
    } else {
        None
    };
    store.set_identity(
        to_owner,
        IdentityAccount {
            owner: to_owner,
            created_at: old_identity.created_at,
            verified: old_identity.verified,
            verified_at: old_identity.verified_at,
        },
    );
    store.remove_identity(from_owner);
    store.credit_balance(from_owner, IDENTITY_DEPOSIT);
    match old_score {
        Some(score) => {
            store.set_score(
                to_owner,
                CreditScoreAccount {
                    identity: identity_address(to_owner),
                    score: score.score,
                    score_level: score.score_level,
                    calculated_at: score.calculated_at,
                },
            );
            store.remove_score(from_owner);
            store.credit_balance(to_owner, SCORE_DEPOSIT);
        },
        None => {},
    }
    store.remove_transfer(from_owner, to_owner);
    store.credit_balance(to_owner, TRANSFER_DEPOSIT);
    Ok(())
}

/// What `cancel_transfer` does to the store: the request's initiator closes
/// it, its deposit refunded to the initiator; the identity and score records
/// are left completely untouched.
pub open spec fn cancel_transfer_transition(
    s: StoreState,
    caller: u64,
    from_owner: u64,
    to_owner: u64,
) -> (StoreState, Result<(), IdentityScoreError>) {
    if !s.transfers.contains_key((from_owner, to_owner)) {
        (s, Err(IdentityScoreError::NotFound))
    } else if s.transfers[(from_owner, to_owner)].from_owner != caller {
        (s, Err(IdentityScoreError::Unauthorized))
    } else {
        (
            credited(
                StoreState { transfers: s.transfers.remove((from_owner, to_owner)), ..s },
                from_owner,
                TRANSFER_DEPOSIT,
            ),
            Ok(()),
        )
    }
}

/// Cancels the pending transfer from `from_owner` to `to_owner`, closing the
/// request and refunding its deposit to the initiator. Only the initiator
/// may cancel; nothing else in the store changes.
pub fn cancel_transfer(store: &mut RecordStore, caller: u64, from_owner: u64, to_owner: u64) -> (r:
    Result<(), IdentityScoreError>)
    requires
        old(store).wf(),
    ensures
        final(store).wf(),
        final(store)@ == cancel_transfer_transition(old(store)@, caller, from_owner, to_owner).0,
        r == cancel_transfer_transition(old(store)@, caller, from_owner, to_owner).1,
{
    let request = match store.get_transfer(from_owner, to_owner) {
        Some(req) => *req,
        None => {
            return Err(IdentityScoreError::NotFound);
        },
    };
    if request.from_owner != caller {
        return Err(IdentityScoreError::Unauthorized);
    }
    store.remove_transfer(from_owner, to_owner);
    store.credit_balance(from_owner, TRANSFER_DEPOSIT);
    Ok(())
}

} // verus!
