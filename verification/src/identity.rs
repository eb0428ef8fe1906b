use crate::constants::{IDENTITY_DEPOSIT, SCORE_DEPOSIT};
use crate::errors::IdentityScoreError;
use crate::state::{identity_address, spec_identity_address, IdentityAccount};
use crate::store::{credited, RecordStore, StoreState};
use vstd::prelude::*;

verus! {

/// What `create_identity` does to the store: unless one already exists, a
/// fresh identity record for `owner` is written, unverified, with the
/// current timestamp as its creation time.
pub open spec fn create_identity_transition(s: StoreState, owner: u64, now: i64) -> (
    StoreState,
    Result<(), IdentityScoreError>,
) {
    if s.identities.contains_key(owner) {
        (s, Err(IdentityScoreError::AlreadyExists))
    } else {
        let record = IdentityAccount { owner, created_at: now, verified: false, verified_at: None };
        (StoreState { identities: s.identities.insert(owner, record), ..s }, Ok(()))
    }
}

/// Creates the identity record for `owner`. Fails when one already exists at
/// the derived address; on success the record starts unverified.
pub fn create_identity(store: &mut RecordStore, owner: u64, now: i64) -> (r: Result<
    (),
    IdentityScoreError,
>)
    requires
        old(store).wf(),
    ensures
        final(store).wf(),
        final(store)@ == create_identity_transition(old(store)@, owner, now).0,
        r == create_identity_transition(old(store)@, owner, now).1,
{
    if store.get_identity(owner).is_some() {
        return Err(IdentityScoreError::AlreadyExists);
    }
    store.set_identity(
        owner,
        IdentityAccount { owner, created_at: now, verified: false, verified_at: None },
    );
    Ok(())
}

/// What `verify_identity` does to the store: with the caller matching the
/// record's owner, the record's `verified` flag is raised and the current
/// timestamp stored beside it.
pub open spec fn verify_identity_transition(s: StoreState, caller: u64, owner: u64, now: i64) -> (
    StoreState,
    Result<(), IdentityScoreError>,
) {
    if !s.identities.contains_key(owner) {
        (s, Err(IdentityScoreError::NotFound))
    } else if s.identities[owner].owner != caller {
        (s, Err(IdentityScoreError::Unauthorized))
    } else {
        let record = IdentityAccount {
            verified: true,
            verified_at: Some(now),
            ..s.identities[owner]
        };
        (StoreState { identities: s.identities.insert(owner, record), ..s }, Ok(()))
    }
}

/// Marks `owner`'s identity as verified, recording when. Only the record's
/// owner may do this.
pub fn verify_identity(store: &mut RecordStore, caller: u64, owner: u64, now: i64) -> (r: Result<
    (),
    IdentityScoreError,
>)
    requires
        old(store).wf(),
    ensures
        final(store).wf(),
        final(store)@ == verify_identity_transition(old(store)@, caller, owner, now).0,
        r == verify_identity_transition(old(store)@, caller, owner, now).1,
{
    let identity = match store.get_identity(owner) {
        Some(rec) => *rec,
        None => {
            return Err(IdentityScoreError::NotFound);
        },
    };
    if identity.owner != caller {
        return Err(IdentityScoreError::Unauthorized);
    }
    store.set_identity(
        owner,
        IdentityAccount { verified: true, verified_at: Some(now), ..identity },
    );
    Ok(())
}

/// What `unverify_identity` does to the store: with the caller matching the
/// record's owner, the record's `verified` flag is cleared together with its
/// verification timestamp, exactly as at creation.
pub open spec fn unverify_identity_transition(s: StoreState, caller: u64, owner: u64) -> (
    StoreState,
    Result<(), IdentityScoreError>,
) {
    if !s.identities.contains_key(owner) {
        (s, Err(IdentityScoreError::NotFound))
    } else if s.identities[owner].owner != caller {
        (s, Err(IdentityScoreError::Unauthorized))
    } else {
        let record = IdentityAccount { verified: false, verified_at: None, ..s.identities[owner] };
        (StoreState { identities: s.identities.insert(owner, record), ..s }, Ok(()))
    }
}

/// Clears `owner`'s verification flag and timestamp. The caller must match
/// the record's owner, symmetrically with `verify_identity`.
pub fn unverify_identity(store: &mut RecordStore, caller: u64, owner: u64) -> (r: Result<
    (),
    IdentityScoreError,
>)
    requires
        old(store).wf(),
    ensures
        final(store).wf(),
        final(store)@ == unverify_identity_transition(old(store)@, caller, owner).0,
        r == unverify_identity_transition(old(store)@, caller, owner).1,
{
    let identity = match store.get_identity(owner) {
        Some(rec) => *rec,
        None => {
            return Err(IdentityScoreError::NotFound);
        },
    };
    if identity.owner != caller {
        return Err(IdentityScoreError::Unauthorized);
    }
    store.set_identity(owner, IdentityAccount { verified: false, verified_at: None, ..identity });
    Ok(())
}

/// What `delete_identity` does to the store: with the caller matching the
/// record's owner, the identity record is removed and its deposit refunded
/// to the owner; a score record at the paired address must reference this
/// identity, and is then closed with it, its deposit refunded to the owner
/// too. A missing score record is not a failure.
pub open spec fn delete_identity_transition(s: StoreState, caller: u64, owner: u64) -> (
    StoreState,
    Result<(), IdentityScoreError>,
) {
    if !s.identities.contains_key(owner) {
        (s, Err(IdentityScoreError::NotFound))
    } else if s.identities[owner].owner != caller {
        (s, Err(IdentityScoreError::Unauthorized))
    } else if s.scores.contains_key(owner) && s.scores[owner].identity != spec_identity_address(
        owner,
    ) {
        (s, Err(IdentityScoreError::Unauthorized))
    } else {
        let s1 = if s.scores.contains_key(owner) {
            credited(StoreState { scores: s.scores.remove(owner), ..s }, owner, SCORE_DEPOSIT)
        } else {
            s
        };
        let s2 = StoreState { identities: s1.identities.remove(owner), ..s1 };
        (credited(s2, owner, IDENTITY_DEPOSIT), Ok(()))
    }
}

/// Closes `owner`'s identity record, refunding its deposit to the owner. A
/// score record at the paired address is closed with it and its deposit
/// refunded to the owner as well; if none exists, deletion proceeds without
/// error.
pub fn delete_identity(store: &mut RecordStore, caller: u64, owner: u64) -> (r: Result<
    (),
    IdentityScoreError,
>)
    requires
        old(store).wf(),
    ensures
        final(store).wf(),
        final(store)@ == delete_identity_transition(old(store)@, caller, owner).0,
        r == delete_identity_transition(old(store)@, caller, owner).1,
{
    let identity = match store.get_identity(owner) {
        Some(rec) => *rec,
        None => {
            return Err(IdentityScoreError::NotFound);
        },
    };
    if identity.owner != caller {
        return Err(IdentityScoreError::Unauthorized);
    }
    let score = match store.get_score(owner) {
        Some(rec) => Some(*rec),
        None => None,
    };
    match score {
        Some(score) => {
            if score.identity != identity_address(owner) {
                return Err(IdentityScoreError::Unauthorized);
            }
            store.remove_score(owner);
            store.credit_balance(owner, SCORE_DEPOSIT);
        },
        None => {},
    }
    store.remove_identity(owner);
    store.credit_balance(owner, IDENTITY_DEPOSIT);
    Ok(())
}

} // verus!
