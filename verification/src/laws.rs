//! The laws of the ledger, proved once and for all over the transition
//! functions that the executable operations are verified to implement.

use crate::constants::{MAX_AGE_SECONDS, RENT_EXEMPT_PER_BYTE, TRANSFER_EXPIRY_SECONDS};
use crate::errors::IdentityScoreError;
use crate::identity::{
    create_identity_transition, delete_identity_transition, unverify_identity_transition,
    verify_identity_transition,
};
use crate::score::{
    asset_component, calculate_score_transition, comprehensive_score, delete_score_transition,
    lemma_six_log10_increases, lemma_six_log10_nonneg, rent_efficiency_component, rent_floor,
    spec_level_for, stability_component, verification_component,
};
use crate::state::{spec_identity_address, ScoreLevel};
use crate::store::{wf_state, StoreState};
use crate::transfer::{
    cancel_transfer_transition, claim_transfer_transition, initiate_transfer_transition,
};
use vstd::arithmetic::div_mod::{
    lemma_div_is_ordered, lemma_div_pos_is_pos, lemma_multiply_divide_lt,
};
use vstd::arithmetic::mul::lemma_mul_inequality;
use vstd::prelude::*;

verus! {

/// The asset component always lies in [30, 90], and does not decrease with
/// the balance.
pub proof fn lemma_asset_component_monotonic(b1: u64, b2: u64)
    requires
        b1 <= b2,
    ensures
        30 <= asset_component(b1) <= asset_component(b2) <= 90,
{
    if b2 >= 1 {
        lemma_six_log10_nonneg(b2);
    }
    if b1 >= 1 {
        lemma_six_log10_nonneg(b1);
        lemma_six_log10_increases(b1, b2);
    }
}

/// The stability component always lies in [0, 90]; on a verified identity it
/// is at least 30.
pub proof fn lemma_stability_component_bounds(
    identity_created_at: i64,
    is_verified: bool,
    current_timestamp: i64,
)
    ensures
        0 <= stability_component(identity_created_at, is_verified, current_timestamp) <= 90,
        is_verified ==> stability_component(identity_created_at, is_verified, current_timestamp)
            >= 30,
{
    let age = if current_timestamp >= identity_created_at {
        current_timestamp - identity_created_at
    } else {
        0
    };
    if age < MAX_AGE_SECONDS {
        lemma_div_pos_is_pos(60 * age, MAX_AGE_SECONDS as int);
        lemma_multiply_divide_lt(60 * age, MAX_AGE_SECONDS as int, 60);
    }
}

/// The storage-efficiency component always lies in [30, 90], and does not
/// decrease with the balance.
pub proof fn lemma_rent_component_monotonic(b1: u64, b2: u64, account_data_len: u64)
    requires
        b1 <= b2,
    ensures
        30 <= rent_efficiency_component(b1, account_data_len) <= rent_efficiency_component(
            b2,
            account_data_len,
        ) <= 90,
{
    let rent = rent_floor(account_data_len);
    if account_data_len != 0 {
        lemma_mul_inequality(1, account_data_len as int, RENT_EXEMPT_PER_BYTE as int);
    }
    assert(rent >= RENT_EXEMPT_PER_BYTE);
    if rent < b1 && b1 < 10 * rent {
        lemma_div_pos_is_pos(60 * (b1 - rent), 9 * rent);
        lemma_multiply_divide_lt(60 * (b1 - rent), 9 * rent, 60);
    }
    if rent < b2 && b2 < 10 * rent {
        lemma_div_pos_is_pos(60 * (b2 - rent), 9 * rent);
        lemma_multiply_divide_lt(60 * (b2 - rent), 9 * rent, 60);
        if rent < b1 {
            lemma_div_is_ordered(60 * (b1 - rent), 60 * (b2 - rent), 9 * rent);
        }
    }
}

/// With every other input fixed, the composite score is monotonically
/// non-decreasing in the balance.
pub proof fn lemma_score_monotonic_in_balance(
    b1: u64,
    b2: u64,
    identity_created_at: i64,
    is_verified: bool,
    account_data_len: u64,
    current_timestamp: i64,
)
    requires
        b1 <= b2,
    ensures
        comprehensive_score(b1, identity_created_at, is_verified, account_data_len, current_timestamp)
            <= comprehensive_score(
            b2,
            identity_created_at,
            is_verified,
            account_data_len,
            current_timestamp,
        ),
{
    lemma_asset_component_monotonic(b1, b2);
    lemma_rent_component_monotonic(b1, b2, account_data_len);
    let s = stability_component(identity_created_at, is_verified, current_timestamp);
    let v = verification_component(is_verified);
    let n1 = 4 * asset_component(b1) + 3 * s + 2 * rent_efficiency_component(b1, account_data_len)
        + v;
    let n2 = 4 * asset_component(b2) + 3 * s + 2 * rent_efficiency_component(b2, account_data_len)
        + v;
    lemma_div_is_ordered(n1, n2, 10);
}

/// On a verified identity the composite score always lies within [30, 90].
pub proof fn lemma_score_within_range(
    lamports: u64,
    identity_created_at: i64,
    account_data_len: u64,
    current_timestamp: i64,
)
    ensures
        30 <= comprehensive_score(
            lamports,
            identity_created_at,
            true,
            account_data_len,
            current_timestamp,
        ) <= 90,
{
    lemma_asset_component_monotonic(lamports, lamports);
    lemma_stability_component_bounds(identity_created_at, true, current_timestamp);
    lemma_rent_component_monotonic(lamports, lamports, account_data_len);
    let n = 4 * asset_component(lamports) + 3 * stability_component(
        identity_created_at,
        true,
        current_timestamp,
    ) + 2 * rent_efficiency_component(lamports, account_data_len) + verification_component(true);
    assert(360 <= n <= 900);
    lemma_div_is_ordered(360, n, 10);
    lemma_div_is_ordered(n, 900, 10);
}

/// The tier boundaries are exact: 49 is the last Low score, 50 the first
/// Medium, 69 the last Medium, 70 the first High.
pub proof fn lemma_tier_boundaries()
    ensures
        spec_level_for(49) == ScoreLevel::Low,
        spec_level_for(50) == ScoreLevel::Medium,
        spec_level_for(69) == ScoreLevel::Medium,
        spec_level_for(70) == ScoreLevel::High,
{
}

/// Verifying and then unverifying an identity that was unverified — as every
/// identity is at creation — restores the store exactly, the record's
/// `verified` flag false and its `verified_at` empty again.
pub proof fn lemma_verify_unverify_round_trip(s: StoreState, owner: u64, t1: i64, t2: i64)
    requires
        wf_state(s),
        s.identities.contains_key(owner),
        !s.identities[owner].verified,
    ensures
        ({
            let (s1, r1) = verify_identity_transition(s, owner, owner, t1);
            let (s2, r2) = unverify_identity_transition(s1, owner, owner);
            r1 == Ok::<(), IdentityScoreError>(()) && r2 == Ok::<(), IdentityScoreError>(()) && s2
                == s
        }),
{
    let (s1, r1) = verify_identity_transition(s, owner, owner, t1);
    let (s2, r2) = unverify_identity_transition(s1, owner, owner);
    assert(s.identities[owner].verified_at is None);
    assert(s2.identities =~= s.identities);
    assert(s2 =~= s);
}

/// The claim deadline is inclusive: claiming strictly after `expires_at`
/// fails with `TransferExpired` and changes nothing, while claiming at or
/// before it — `expires_at` itself included — succeeds.
pub proof fn lemma_claim_deadline(s: StoreState, from_owner: u64, to_owner: u64, now: i64)
    requires
        wf_state(s),
        s.transfers.contains_key((from_owner, to_owner)),
        s.identities.contains_key(from_owner),
        !s.identities.contains_key(to_owner),
    ensures
        now > s.transfers[(from_owner, to_owner)].expires_at ==> claim_transfer_transition(
            s,
            to_owner,
            from_owner,
            to_owner,
            now,
        ) == (s, Err::<(), IdentityScoreError>(IdentityScoreError::TransferExpired)),
        now <= s.transfers[(from_owner, to_owner)].expires_at ==> claim_transfer_transition(
            s,
            to_owner,
            from_owner,
            to_owner,
            now,
        ).1 == Ok::<(), IdentityScoreError>(()),
{
}

/// After a successful claim the old identity record and the transfer request
/// no longer exist, and the new identity record exists, owned by the new
/// owner, with `created_at`, `verified` and `verified_at` equal to the old
/// record's values.
pub proof fn lemma_claim_migrates_identity(s: StoreState, from_owner: u64, to_owner: u64, now: i64)
    requires
        wf_state(s),
        s.transfers.contains_key((from_owner, to_owner)),
        s.identities.contains_key(from_owner),
        !s.identities.contains_key(to_owner),
        now <= s.transfers[(from_owner, to_owner)].expires_at,
    ensures
        ({
            let (s2, r) = claim_transfer_transition(s, to_owner, from_owner, to_owner, now);
            &&& r == Ok::<(), IdentityScoreError>(())
            &&& !s2.identities.contains_key(from_owner)
            &&& !s2.transfers.contains_key((from_owner, to_owner))
            &&& s2.identities.contains_key(to_owner)
            &&& s2.identities[to_owner].owner == to_owner
            &&& s2.identities[to_owner].created_at == s.identities[from_owner].created_at
            &&& s2.identities[to_owner].verified == s.identities[from_owner].verified
            &&& s2.identities[to_owner].verified_at == s.identities[from_owner].verified_at
        }),
{
}

/// A transfer of an identity with no score record never creates a score
/// record as a side effect of the claim: the score map is left untouched.
pub proof fn lemma_claim_without_score_creates_none(
    s: StoreState,
    from_owner: u64,
    to_owner: u64,
    now: i64,
)
    requires
        wf_state(s),
        s.transfers.contains_key((from_owner, to_owner)),
        s.identities.contains_key(from_owner),
        !s.identities.contains_key(to_owner),
        now <= s.transfers[(from_owner, to_owner)].expires_at,
        !s.scores.contains_key(from_owner),
    ensures
        claim_transfer_transition(s, to_owner, from_owner, to_owner, now).0.scores == s.scores,
{
}

/// A transfer of an identity with a score record migrates it: the new score
/// record carries identical `score`, `score_level` and `calculated_at`, but
/// references the new owner's identity — a different address — and the old
/// score record is gone.
pub proof fn lemma_claim_migrates_score(s: StoreState, from_owner: u64, to_owner: u64, now: i64)
    requires
        wf_state(s),
        s.transfers.contains_key((from_owner, to_owner)),
        s.identities.contains_key(from_owner),
        !s.identities.contains_key(to_owner),
        now <= s.transfers[(from_owner, to_owner)].expires_at,
        s.scores.contains_key(from_owner),
    ensures
        ({
            let (s2, r) = claim_transfer_transition(s, to_owner, from_owner, to_owner, now);
            &&& r == Ok::<(), IdentityScoreError>(())
            &&& !s2.scores.contains_key(from_owner)
            &&& s2.scores.contains_key(to_owner)
            &&& s2.scores[to_owner].score == s.scores[from_owner].score
            &&& s2.scores[to_owner].score_level == s.scores[from_owner].score_level
            &&& s2.scores[to_owner].calculated_at == s.scores[from_owner].calculated_at
            &&& s2.scores[to_owner].identity == spec_identity_address(to_owner)
            &&& s2.scores[to_owner].identity != s.scores[from_owner].identity
        }),
{
}

/// Cancelling a pending transfer removes only the transfer request, with its
/// deposit refunded to the initiator; the identity and score records are
/// left completely untouched.
pub proof fn lemma_cancel_leaves_records_untouched(s: StoreState, from_owner: u64, to_owner: u64)
    requires
        wf_state(s),
        s.transfers.contains_key((from_owner, to_owner)),
    ensures
        ({
            let (s2, r) = cancel_transfer_transition(s, from_owner, from_owner, to_owner);
            &&& r == Ok::<(), IdentityScoreError>(())
            &&& s2.identities == s.identities
            &&& s2.scores == s.scores
            &&& s2.transfers == s.transfers.remove((from_owner, to_owner))
        }),
{
}

/// While a transfer request is pending for an ordered (from, to) pair, a
/// second `initiate` for the same pair fails with `AlreadyExists` and
/// changes nothing.
pub proof fn lemma_duplicate_initiate_rejected(
    s: StoreState,
    from_owner: u64,
    to_owner: u64,
    now1: i64,
    now2: i64,
)
    requires
        wf_state(s),
        s.identities.contains_key(from_owner),
        s.identities[from_owner].verified,
        !s.transfers.contains_key((from_owner, to_owner)),
    ensures
        ({
            let (s1, r1) = initiate_transfer_transition(s, from_owner, from_owner, to_owner, now1);
            let (s2, r2) = initiate_transfer_transition(s1, from_owner, from_owner, to_owner, now2);
            &&& r1 == Ok::<(), IdentityScoreError>(())
            &&& r2 == Err::<(), IdentityScoreError>(IdentityScoreError::AlreadyExists)
            &&& s2 == s1
        }),
{
}

/// Deleting the identity or the score of an owner who has no score record
/// succeeds without error: the record's absence is not a failure.
pub proof fn lemma_delete_without_score_succeeds(s: StoreState, owner: u64)
    requires
        wf_state(s),
        s.identities.contains_key(owner),
        !s.scores.contains_key(owner),
    ensures
        delete_identity_transition(s, owner, owner).1 == Ok::<(), IdentityScoreError>(()),
        delete_score_transition(s, owner, owner).1 == Ok::<(), IdentityScoreError>(()),
        delete_score_transition(s, owner, owner).0 == s,
{
}

/// A caller who is not the record's owner — and, for a claim, not the
/// request's designated recipient — is rejected with `Unauthorized` by every
/// mutating operation on that record, and the store is left unchanged.
pub proof fn lemma_unauthorized_callers_rejected(
    s: StoreState,
    caller: u64,
    owner: u64,
    to_owner: u64,
    now: i64,
)
    requires
        wf_state(s),
        caller != owner,
    ensures
        s.identities.contains_key(owner) ==> verify_identity_transition(s, caller, owner, now) == (
            s,
            Err::<(), IdentityScoreError>(IdentityScoreError::Unauthorized),
        ),
        s.identities.contains_key(owner) ==> unverify_identity_transition(s, caller, owner) == (
            s,
            Err::<(), IdentityScoreError>(IdentityScoreError::Unauthorized),
        ),
        s.identities.contains_key(owner) ==> delete_identity_transition(s, caller, owner) == (
            s,
            Err::<(), IdentityScoreError>(IdentityScoreError::Unauthorized),
        ),
        s.identities.contains_key(owner) ==> delete_score_transition(s, caller, owner) == (
            s,
            Err::<(), IdentityScoreError>(IdentityScoreError::Unauthorized),
        ),
        s.identities.contains_key(owner) ==> calculate_score_transition(s, caller, owner, now) == (
            s,
            Err::<(), IdentityScoreError>(IdentityScoreError::Unauthorized),
        ),
        s.identities.contains_key(owner) ==> initiate_transfer_transition(
            s,
            caller,
            owner,
            to_owner,
            now,
        ) == (s, Err::<(), IdentityScoreError>(IdentityScoreError::Unauthorized)),
        s.transfers.contains_key((owner, to_owner)) ==> cancel_transfer_transition(
            s,
            caller,
            owner,
            to_owner,
        ) == (s, Err::<(), IdentityScoreError>(IdentityScoreError::Unauthorized)),
        (s.transfers.contains_key((owner, to_owner)) && s.identities.contains_key(owner)
            && !s.identities.contains_key(to_owner) && caller != to_owner && now <= s.transfers[
            (owner, to_owner)
        ].expires_at) ==> claim_transfer_transition(s, caller, owner, to_owner, now) == (
            s,
            Err::<(), IdentityScoreError>(IdentityScoreError::Unauthorized),
        ),
{
}

/// Every operation is atomic: whenever it reports an error, the store is
/// left exactly as it was.
pub proof fn lemma_failed_operations_have_no_effect(
    s: StoreState,
    caller: u64,
    owner: u64,
    to_owner: u64,
    now: i64,
)
    ensures
        create_identity_transition(s, owner, now).1 != Ok::<(), IdentityScoreError>(())
            ==> create_identity_transition(s, owner, now).0 == s,
        verify_identity_transition(s, caller, owner, now).1 != Ok::<(), IdentityScoreError>(())
            ==> verify_identity_transition(s, caller, owner, now).0 == s,
        unverify_identity_transition(s, caller, owner).1 != Ok::<(), IdentityScoreError>(())
            ==> unverify_identity_transition(s, caller, owner).0 == s,
        delete_identity_transition(s, caller, owner).1 != Ok::<(), IdentityScoreError>(())
            ==> delete_identity_transition(s, caller, owner).0 == s,
        calculate_score_transition(s, caller, owner, now).1 != Ok::<(), IdentityScoreError>(())
            ==> calculate_score_transition(s, caller, owner, now).0 == s,
        delete_score_transition(s, caller, owner).1 != Ok::<(), IdentityScoreError>(())
            ==> delete_score_transition(s, caller, owner).0 == s,
        initiate_transfer_transition(s, caller, owner, to_owner, now).1 != Ok::<
            (),
            IdentityScoreError,
        >(()) ==> initiate_transfer_transition(s, caller, owner, to_owner, now).0 == s,
        claim_transfer_transition(s, caller, owner, to_owner, now).1 != Ok::<
            (),
            IdentityScoreError,
        >(()) ==> claim_transfer_transition(s, caller, owner, to_owner, now).0 == s,
        cancel_transfer_transition(s, caller, owner, to_owner).1 != Ok::<(), IdentityScoreError>(())
            ==> cancel_transfer_transition(s, caller, owner, to_owner).0 == s,
{
}

/// Every operation preserves the ledger invariant `wf_state`.
pub proof fn lemma_operations_preserve_wf(
    s: StoreState,
    caller: u64,
    owner: u64,
    to_owner: u64,
    now: i64,
)
    requires
        wf_state(s),
    ensures
        wf_state(create_identity_transition(s, owner, now).0),
        wf_state(verify_identity_transition(s, caller, owner, now).0),
        wf_state(unverify_identity_transition(s, caller, owner).0),
        wf_state(delete_identity_transition(s, caller, owner).0),
        wf_state(calculate_score_transition(s, caller, owner, now).0),
        wf_state(delete_score_transition(s, caller, owner).0),
        now + TRANSFER_EXPIRY_SECONDS <= i64::MAX ==> wf_state(
            initiate_transfer_transition(s, caller, owner, to_owner, now).0,
        ),
        wf_state(claim_transfer_transition(s, caller, owner, to_owner, now).0),
        wf_state(cancel_transfer_transition(s, caller, owner, to_owner).0),
{
    lemma_create_identity_preserves_wf(s, owner, now);
    lemma_verify_identity_preserves_wf(s, caller, owner, now);
    lemma_unverify_identity_preserves_wf(s, caller, owner);
    lemma_delete_identity_preserves_wf(s, caller, owner);
    lemma_calculate_score_preserves_wf(s, caller, owner, now);
    lemma_delete_score_preserves_wf(s, caller, owner);
    if now + TRANSFER_EXPIRY_SECONDS <= i64::MAX {
        lemma_initiate_transfer_preserves_wf(s, caller, owner, to_owner, now);
    }
    lemma_claim_transfer_preserves_wf(s, caller, owner, to_owner, now);
    lemma_cancel_transfer_preserves_wf(s, caller, owner, to_owner);
}

proof fn lemma_create_identity_preserves_wf(s: StoreState, owner: u64, now: i64)
    requires
        wf_state(s),
    ensures
        wf_state(create_identity_transition(s, owner, now).0),
{
    let s2 = create_identity_transition(s, owner, now).0;
    assert forall|o: u64| s2.identities.contains_key(o) implies (#[trigger] s2.identities[o]).owner
        == o && s2.identities[o].wf() by {
        if o != owner {
            assert(s.identities.contains_key(o));
        }
    }
    assert forall|o: u64| s2.scores.contains_key(o) implies (#[trigger] s2.scores[o]).identity
        == spec_identity_address(o) && s2.identities.contains_key(o) by {
        assert(s.scores.contains_key(o));
    }
}

proof fn lemma_verify_identity_preserves_wf(s: StoreState, caller: u64, owner: u64, now: i64)
    requires
        wf_state(s),
    ensures
        wf_state(verify_identity_transition(s, caller, owner, now).0),
{
    let s2 = verify_identity_transition(s, caller, owner, now).0;
    assert forall|o: u64| s2.identities.contains_key(o) implies (#[trigger] s2.identities[o]).owner
        == o && s2.identities[o].wf() by {
        if o != owner {
            assert(s.identities.contains_key(o));
        }
    }
    assert forall|o: u64| s2.scores.contains_key(o) implies (#[trigger] s2.scores[o]).identity
        == spec_identity_address(o) && s2.identities.contains_key(o) by {
        assert(s.scores.contains_key(o));
    }
}

proof fn lemma_unverify_identity_preserves_wf(s: StoreState, caller: u64, owner: u64)
    requires
        wf_state(s),
    ensures
        wf_state(unverify_identity_transition(s, caller, owner).0),
{
    let s2 = unverify_identity_transition(s, caller, owner).0;
    assert forall|o: u64| s2.identities.contains_key(o) implies (#[trigger] s2.identities[o]).owner
        == o && s2.identities[o].wf() by {
        if o != owner {
            assert(s.identities.contains_key(o));
        }
    }
    assert forall|o: u64| s2.scores.contains_key(o) implies (#[trigger] s2.scores[o]).identity
        == spec_identity_address(o) && s2.identities.contains_key(o) by {
        assert(s.scores.contains_key(o));
    }
}

proof fn lemma_delete_identity_preserves_wf(s: StoreState, caller: u64, owner: u64)
    requires
        wf_state(s),
    ensures
        wf_state(delete_identity_transition(s, caller, owner).0),
{
    let s2 = delete_identity_transition(s, caller, owner).0;
    if delete_identity_transition(s, caller, owner).1 == Ok::<(), IdentityScoreError>(()) {
        assert forall|o: u64| s2.identities.contains_key(o) implies (#[trigger] s2.identities[o]).owner
            == o && s2.identities[o].wf() by {
            assert(s.identities.contains_key(o));
        }
        assert forall|o: u64| s2.scores.contains_key(o) implies (#[trigger] s2.scores[o]).identity
            == spec_identity_address(o) && s2.identities.contains_key(o) by {
            assert(s.scores.contains_key(o));
            assert(o != owner);
        }
    }
}

proof fn lemma_calculate_score_preserves_wf(s: StoreState, caller: u64, owner: u64, now: i64)
    requires
        wf_state(s),
    ensures
        wf_state(calculate_score_transition(s, caller, owner, now).0),
{
    let s2 = calculate_score_transition(s, caller, owner, now).0;
    assert forall|o: u64| s2.scores.contains_key(o) implies (#[trigger] s2.scores[o]).identity
        == spec_identity_address(o) && s2.identities.contains_key(o) by {
        if o != owner {
            assert(s.scores.contains_key(o));
        }
    }
}

proof fn lemma_delete_score_preserves_wf(s: StoreState, caller: u64, owner: u64)
    requires
        wf_state(s),
    ensures
        wf_state(delete_score_transition(s, caller, owner).0),
{
    let s2 = delete_score_transition(s, caller, owner).0;
    assert forall|o: u64| s2.scores.contains_key(o) implies (#[trigger] s2.scores[o]).identity
        == spec_identity_address(o) && s2.identities.contains_key(o) by {
        assert(s.scores.contains_key(o));
    }
}

proof fn lemma_initiate_transfer_preserves_wf(
    s: StoreState,
    caller: u64,
    from_owner: u64,
    to_owner: u64,
    now: i64,
)
    requires
        wf_state(s),
        now + TRANSFER_EXPIRY_SECONDS <= i64::MAX,
    ensures
        wf_state(initiate_transfer_transition(s, caller, from_owner, to_owner, now).0),
{
    let s2 = initiate_transfer_transition(s, caller, from_owner, to_owner, now).0;
    assert forall|p: (u64, u64)| s2.transfers.contains_key(p) implies {
        &&& (#[trigger] s2.transfers[p]).from_owner == p.0
        &&& s2.transfers[p].to_owner == p.1
        &&& s2.transfers[p].identity == spec_identity_address(p.0)
        &&& s2.transfers[p].expires_at == s2.transfers[p].created_at + TRANSFER_EXPIRY_SECONDS
    } by {
        if p != (from_owner, to_owner) {
            assert(s.transfers.contains_key(p));
        }
    }
}

proof fn lemma_claim_transfer_preserves_wf(
    s: StoreState,
    caller: u64,
    from_owner: u64,
    to_owner: u64,
    now: i64,
)
    requires
        wf_state(s),
    ensures
        wf_state(claim_transfer_transition(s, caller, from_owner, to_owner, now).0),
{
    let s2 = claim_transfer_transition(s, caller, from_owner, to_owner, now).0;
    if claim_transfer_transition(s, caller, from_owner, to_owner, now).1 == Ok::<
        (),
        IdentityScoreError,
    >(()) {
        assert(from_owner != to_owner);
        assert forall|o: u64| s2.identities.contains_key(o) implies (#[trigger] s2.identities[o]).owner
            == o && s2.identities[o].wf() by {
            if o != to_owner {
                assert(s.identities.contains_key(o));
            }
        }
        assert forall|o: u64| s2.scores.contains_key(o) implies (#[trigger] s2.scores[o]).identity
            == spec_identity_address(o) && s2.identities.contains_key(o) by {
            if o != to_owner {
                assert(s.scores.contains_key(o));
                assert(o != from_owner);
                assert(s.identities.contains_key(o));
            }
        }
        assert forall|p: (u64, u64)| s2.transfers.contains_key(p) implies {
            &&& (#[trigger] s2.transfers[p]).from_owner == p.0
            &&& s2.transfers[p].to_owner == p.1
            &&& s2.transfers[p].identity == spec_identity_address(p.0)
            &&& s2.transfers[p].expires_at == s2.transfers[p].created_at + TRANSFER_EXPIRY_SECONDS
        } by {
            assert(s.transfers.contains_key(p));
        }
    }
}

proof fn lemma_cancel_transfer_preserves_wf(
    s: StoreState,
    caller: u64,
    from_owner: u64,
    to_owner: u64,
)
    requires
        wf_state(s),
    ensures
        wf_state(cancel_transfer_transition(s, caller, from_owner, to_owner).0),
{
    let s2 = cancel_transfer_transition(s, caller, from_owner, to_owner).0;
    assert forall|p: (u64, u64)| s2.transfers.contains_key(p) implies {
        &&& (#[trigger] s2.transfers[p]).from_owner == p.0
        &&& s2.transfers[p].to_owner == p.1
        &&& s2.transfers[p].identity == spec_identity_address(p.0)
        &&& s2.transfers[p].expires_at == s2.transfers[p].created_at + TRANSFER_EXPIRY_SECONDS
    } by {
        assert(s.transfers.contains_key(p));
    }
}

} // verus!
