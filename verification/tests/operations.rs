use identity_score::constants::TRANSFER_EXPIRY_SECONDS;
use identity_score::state::identity_address;
use identity_score::{
    calculate_score, cancel_transfer, claim_transfer, create_identity, delete_identity,
    delete_score, initiate_transfer, unverify_identity, verify_identity, RecordStore, ScoreLevel,
};

const LAMPORTS_PER_SOL: u64 = 1_000_000_000;

const T0: i64 = 1_700_000_000;

#[test]
fn test_create_identity() {
    let mut store = RecordStore::new();

    let user: u64 = 1;
    store.credit_balance(user, 10 * LAMPORTS_PER_SOL);

    create_identity(&mut store, user, T0).unwrap();

    let identity_state = *store.get_identity(user).unwrap();
    assert_eq!(identity_state.owner, user);
    assert_eq!(identity_state.verified, false);
    assert_eq!(identity_state.verified_at, None);
}

#[test]
fn test_verify_identity() {
    let mut store = RecordStore::new();

    let user: u64 = 1;
    store.credit_balance(user, 10 * LAMPORTS_PER_SOL);

    create_identity(&mut store, user, T0).unwrap();
    verify_identity(&mut store, user, user, T0 + 1).unwrap();

    let identity_state = *store.get_identity(user).unwrap();
    assert_eq!(identity_state.verified, true);
    assert!(identity_state.verified_at.is_some());
}

#[test]
fn test_verify_identity_unauthorized() {
    let mut store = RecordStore::new();

    let user: u64 = 1;
    let hacker: u64 = 2;
    store.credit_balance(user, 10 * LAMPORTS_PER_SOL);
    store.credit_balance(hacker, 10 * LAMPORTS_PER_SOL);

    create_identity(&mut store, user, T0).unwrap();

    let result = verify_identity(&mut store, hacker, user, T0 + 1);
    assert!(result.is_err());
}

#[test]
fn test_calculate_score_high() {
    let mut store = RecordStore::new();

    let user: u64 = 1;
    store.credit_balance(user, 15 * LAMPORTS_PER_SOL);

    create_identity(&mut store, user, T0).unwrap();
    verify_identity(&mut store, user, user, T0).unwrap();
    calculate_score(&mut store, user, user, T0).unwrap();

    let score_state = *store.get_score(user).unwrap();
    assert_eq!(score_state.identity, identity_address(user));
    assert_eq!(score_state.score, 72);
    assert_eq!(score_state.score_level, ScoreLevel::High);
}

#[test]
fn test_unverify_identity() {
    let mut store = RecordStore::new();

    let user: u64 = 1;
    store.credit_balance(user, 10 * LAMPORTS_PER_SOL);

    create_identity(&mut store, user, T0).unwrap();
    verify_identity(&mut store, user, user, T0 + 1).unwrap();

    let identity_state = *store.get_identity(user).unwrap();
    assert_eq!(identity_state.verified, true);

    unverify_identity(&mut store, user, user).unwrap();

    let identity_state = *store.get_identity(user).unwrap();
    assert_eq!(identity_state.verified, false);
    assert_eq!(identity_state.verified_at, None);
}

#[test]
fn test_unverify_identity_basic() {
    let mut store = RecordStore::new();

    let user: u64 = 1;
    store.credit_balance(user, 10 * LAMPORTS_PER_SOL);

    create_identity(&mut store, user, T0).unwrap();
    verify_identity(&mut store, user, user, T0 + 1).unwrap();
    unverify_identity(&mut store, user, user).unwrap();

    let identity_state = *store.get_identity(user).unwrap();
    assert_eq!(identity_state.verified, false);
    assert_eq!(identity_state.verified_at, None);
}

#[test]
fn test_calculate_score_unverified() {
    let mut store = RecordStore::new();

    let user: u64 = 1;
    store.credit_balance(user, 5 * LAMPORTS_PER_SOL);

    create_identity(&mut store, user, T0).unwrap();
    verify_identity(&mut store, user, user, T0).unwrap();
    calculate_score(&mut store, user, user, T0).unwrap();

    let score_state = *store.get_score(user).unwrap();
    assert_eq!(score_state.identity, identity_address(user));
    assert_eq!(score_state.score, 71);
    assert_eq!(score_state.score_level, ScoreLevel::High);
}

#[test]
fn test_calculate_score_unverified_fails() {
    let mut store = RecordStore::new();

    let user: u64 = 1;
    store.credit_balance(user, 500_000_000);

    create_identity(&mut store, user, T0).unwrap();
    verify_identity(&mut store, user, user, T0).unwrap();
    calculate_score(&mut store, user, user, T0).unwrap();

    let score_state = *store.get_score(user).unwrap();
    assert_eq!(score_state.identity, identity_address(user));
    assert_eq!(score_state.score_level, ScoreLevel::Medium);
}

#[test]
fn test_calculate_score_various_levels() {
    let mut store = RecordStore::new();

    let user: u64 = 1;
    store.credit_balance(user, 500_000_000);

    create_identity(&mut store, user, T0).unwrap();

    let result = calculate_score(&mut store, user, user, T0);
    assert!(result.is_err());
}

#[test]
fn test_calculate_score_after_unverify() {
    let mut store = RecordStore::new();

    let user: u64 = 1;
    store.credit_balance(user, 10 * LAMPORTS_PER_SOL);

    create_identity(&mut store, user, T0).unwrap();
    verify_identity(&mut store, user, user, T0).unwrap();
    unverify_identity(&mut store, user, user).unwrap();

    let result = calculate_score(&mut store, user, user, T0);
    assert!(result.is_err());
}

#[test]
fn test_delete_score() {
    let mut store = RecordStore::new();

    let user: u64 = 1;
    store.credit_balance(user, 10 * LAMPORTS_PER_SOL);

    create_identity(&mut store, user, T0).unwrap();
    verify_identity(&mut store, user, user, T0).unwrap();
    calculate_score(&mut store, user, user, T0).unwrap();

    assert!(store.get_score(user).is_some());

    delete_score(&mut store, user, user).unwrap();

    assert!(store.get_score(user).is_none());
    assert!(store.get_identity(user).is_some());
}

#[test]
fn test_delete_identity_with_score() {
    let mut store = RecordStore::new();

    let user: u64 = 1;
    store.credit_balance(user, 10 * LAMPORTS_PER_SOL);

    create_identity(&mut store, user, T0).unwrap();
    verify_identity(&mut store, user, user, T0).unwrap();
    calculate_score(&mut store, user, user, T0).unwrap();

    assert!(store.get_identity(user).is_some());
    assert!(store.get_score(user).is_some());

    delete_identity(&mut store, user, user).unwrap();

    assert!(store.get_identity(user).is_none());
    assert!(store.get_score(user).is_none());
}

#[test]
fn test_delete_identity_unauthorized() {
    let mut store = RecordStore::new();

    let user: u64 = 1;
    let hacker: u64 = 2;
    store.credit_balance(user, 10 * LAMPORTS_PER_SOL);
    store.credit_balance(hacker, 10 * LAMPORTS_PER_SOL);

    create_identity(&mut store, user, T0).unwrap();
    verify_identity(&mut store, user, user, T0).unwrap();
    calculate_score(&mut store, user, user, T0).unwrap();

    let result = delete_identity(&mut store, hacker, user);

    assert!(result.is_err());
    assert!(store.get_identity(user).is_some());
    assert!(store.get_score(user).is_some());
}

#[test]
fn test_delete_identity_without_score() {
    let mut store = RecordStore::new();

    let user: u64 = 1;
    store.credit_balance(user, 10 * LAMPORTS_PER_SOL);

    create_identity(&mut store, user, T0).unwrap();

    assert!(store.get_identity(user).is_some());
    assert!(store.get_score(user).is_none());

    delete_identity(&mut store, user, user).unwrap();

    assert!(store.get_identity(user).is_none());
}

#[test]
fn test_initiate_and_claim_transfer_basic() {
    let mut store = RecordStore::new();

    let old_owner: u64 = 1;
    let new_owner: u64 = 2;
    store.credit_balance(old_owner, 10 * LAMPORTS_PER_SOL);
    store.credit_balance(new_owner, 10 * LAMPORTS_PER_SOL);

    create_identity(&mut store, old_owner, T0).unwrap();
    verify_identity(&mut store, old_owner, old_owner, T0).unwrap();

    initiate_transfer(&mut store, old_owner, old_owner, new_owner, T0 + 2).unwrap();

    assert!(store.get_transfer(old_owner, new_owner).is_some());

    claim_transfer(&mut store, new_owner, old_owner, new_owner, T0 + 3).unwrap();

    assert!(store.get_identity(old_owner).is_none());
    assert!(store.get_transfer(old_owner, new_owner).is_none());

    let new_identity_state = *store.get_identity(new_owner).unwrap();
    assert_eq!(new_identity_state.owner, new_owner);
    assert_eq!(new_identity_state.verified, true);
    assert!(new_identity_state.verified_at.is_some());
}

#[test]
fn test_cancel_transfer() {
    let mut store = RecordStore::new();

    let old_owner: u64 = 1;
    let new_owner: u64 = 2;
    store.credit_balance(old_owner, 10 * LAMPORTS_PER_SOL);
    store.credit_balance(new_owner, 10 * LAMPORTS_PER_SOL);

    create_identity(&mut store, old_owner, T0).unwrap();
    verify_identity(&mut store, old_owner, old_owner, T0).unwrap();

    initiate_transfer(&mut store, old_owner, old_owner, new_owner, T0 + 2).unwrap();

    assert!(store.get_transfer(old_owner, new_owner).is_some());

    cancel_transfer(&mut store, old_owner, old_owner, new_owner).unwrap();

    assert!(store.get_transfer(old_owner, new_owner).is_none());
    assert!(store.get_identity(old_owner).is_some());
}

#[test]
fn test_initiate_and_claim_transfer_with_score() {
    let mut store = RecordStore::new();

    let old_owner: u64 = 1;
    let new_owner: u64 = 2;
    store.credit_balance(old_owner, 15 * LAMPORTS_PER_SOL);
    store.credit_balance(new_owner, 10 * LAMPORTS_PER_SOL);

    create_identity(&mut store, old_owner, T0).unwrap();
    verify_identity(&mut store, old_owner, old_owner, T0).unwrap();
    calculate_score(&mut store, old_owner, old_owner, T0).unwrap();

    let old_score_state = *store.get_score(old_owner).unwrap();

    initiate_transfer(&mut store, old_owner, old_owner, new_owner, T0 + 2).unwrap();
    claim_transfer(&mut store, new_owner, old_owner, new_owner, T0 + 3).unwrap();

    assert!(store.get_identity(old_owner).is_none());
    assert!(store.get_score(old_owner).is_none());
    assert!(store.get_transfer(old_owner, new_owner).is_none());

    let new_score_state = *store.get_score(new_owner).unwrap();
    assert_eq!(new_score_state.score, old_score_state.score);
    assert_eq!(new_score_state.score_level, old_score_state.score_level);
}

#[test]
fn test_claim_transfer_unauthorized() {
    let mut store = RecordStore::new();

    let old_owner: u64 = 1;
    let new_owner: u64 = 2;
    let hacker: u64 = 3;
    store.credit_balance(old_owner, 10 * LAMPORTS_PER_SOL);
    store.credit_balance(new_owner, 10 * LAMPORTS_PER_SOL);
    store.credit_balance(hacker, 10 * LAMPORTS_PER_SOL);

    create_identity(&mut store, old_owner, T0).unwrap();
    verify_identity(&mut store, old_owner, old_owner, T0).unwrap();

    initiate_transfer(&mut store, old_owner, old_owner, new_owner, T0 + 2).unwrap();

    let result = claim_transfer(&mut store, hacker, old_owner, new_owner, T0 + 3);
    assert!(result.is_err());
}

#[test]
fn test_cancel_transfer_unauthorized() {
    let mut store = RecordStore::new();

    let old_owner: u64 = 1;
    let new_owner: u64 = 2;
    let hacker: u64 = 3;
    store.credit_balance(old_owner, 10 * LAMPORTS_PER_SOL);
    store.credit_balance(new_owner, 10 * LAMPORTS_PER_SOL);
    store.credit_balance(hacker, 10 * LAMPORTS_PER_SOL);

    create_identity(&mut store, old_owner, T0).unwrap();
    verify_identity(&mut store, old_owner, old_owner, T0).unwrap();

    initiate_transfer(&mut store, old_owner, old_owner, new_owner, T0 + 2).unwrap();

    let result = cancel_transfer(&mut store, hacker, old_owner, new_owner);
    assert!(result.is_err());
}

#[test]
fn test_transfer_preserves_created_at() {
    let mut store = RecordStore::new();

    let old_owner: u64 = 1;
    let new_owner: u64 = 2;
    store.credit_balance(old_owner, 10 * LAMPORTS_PER_SOL);
    store.credit_balance(new_owner, 10 * LAMPORTS_PER_SOL);

    create_identity(&mut store, old_owner, T0).unwrap();
    verify_identity(&mut store, old_owner, old_owner, T0 + 1).unwrap();

    let created_at = store.get_identity(old_owner).unwrap().created_at;

    initiate_transfer(&mut store, old_owner, old_owner, new_owner, T0 + 2).unwrap();
    claim_transfer(&mut store, new_owner, old_owner, new_owner, T0 + 3).unwrap();

    let new_identity_state = *store.get_identity(new_owner).unwrap();
    assert_eq!(new_identity_state.created_at, created_at);
}

#[test]
fn test_initiate_transfer_unverified_identity() {
    let mut store = RecordStore::new();

    let old_owner: u64 = 1;
    let new_owner: u64 = 2;
    store.credit_balance(old_owner, 10 * LAMPORTS_PER_SOL);
    store.credit_balance(new_owner, 10 * LAMPORTS_PER_SOL);

    create_identity(&mut store, old_owner, T0).unwrap();

    let result = initiate_transfer(&mut store, old_owner, old_owner, new_owner, T0 + 1);
    assert!(result.is_err());
}

#[test]
fn test_initiate_transfer_unauthorized() {
    let mut store = RecordStore::new();

    let old_owner: u64 = 1;
    let new_owner: u64 = 2;
    let hacker: u64 = 3;
    store.credit_balance(old_owner, 10 * LAMPORTS_PER_SOL);
    store.credit_balance(new_owner, 10 * LAMPORTS_PER_SOL);
    store.credit_balance(hacker, 10 * LAMPORTS_PER_SOL);

    create_identity(&mut store, old_owner, T0).unwrap();
    verify_identity(&mut store, old_owner, old_owner, T0).unwrap();

    let result = initiate_transfer(&mut store, hacker, old_owner, new_owner, T0 + 1);
    assert!(result.is_err());
}

#[test]
fn test_claim_transfer_expired() {
    let mut store = RecordStore::new();

    let old_owner: u64 = 1;
    let new_owner: u64 = 2;
    store.credit_balance(old_owner, 10 * LAMPORTS_PER_SOL);
    store.credit_balance(new_owner, 10 * LAMPORTS_PER_SOL);

    create_identity(&mut store, old_owner, T0).unwrap();
    verify_identity(&mut store, old_owner, old_owner, T0).unwrap();

    initiate_transfer(&mut store, old_owner, old_owner, new_owner, T0 + 2).unwrap();

    let request = *store.get_transfer(old_owner, new_owner).unwrap();
    assert_eq!(request.expires_at - request.created_at, TRANSFER_EXPIRY_SECONDS);
}

#[test]
fn test_initiate_transfer_duplicate() {
    let mut store = RecordStore::new();

    let old_owner: u64 = 1;
    let new_owner: u64 = 2;
    store.credit_balance(old_owner, 10 * LAMPORTS_PER_SOL);
    store.credit_balance(new_owner, 10 * LAMPORTS_PER_SOL);

    create_identity(&mut store, old_owner, T0).unwrap();
    verify_identity(&mut store, old_owner, old_owner, T0).unwrap();

    initiate_transfer(&mut store, old_owner, old_owner, new_owner, T0 + 2).unwrap();

    let result = initiate_transfer(&mut store, old_owner, old_owner, new_owner, T0 + 3);
    assert!(result.is_err());
}

#[test]
fn test_claim_cancelled_transfer() {
    let mut store = RecordStore::new();

    let old_owner: u64 = 1;
    let new_owner: u64 = 2;
    store.credit_balance(old_owner, 10 * LAMPORTS_PER_SOL);
    store.credit_balance(new_owner, 10 * LAMPORTS_PER_SOL);

    create_identity(&mut store, old_owner, T0).unwrap();
    verify_identity(&mut store, old_owner, old_owner, T0).unwrap();

    initiate_transfer(&mut store, old_owner, old_owner, new_owner, T0 + 2).unwrap();
    cancel_transfer(&mut store, old_owner, old_owner, new_owner).unwrap();

    assert!(store.get_transfer(old_owner, new_owner).is_none());

    let result = claim_transfer(&mut store, new_owner, old_owner, new_owner, T0 + 3);
    assert!(result.is_err());
}

#[test]
fn test_transfer_request_data() {
    let mut store = RecordStore::new();

    let old_owner: u64 = 1;
    let new_owner: u64 = 2;
    store.credit_balance(old_owner, 10 * LAMPORTS_PER_SOL);
    store.credit_balance(new_owner, 10 * LAMPORTS_PER_SOL);

    create_identity(&mut store, old_owner, T0).unwrap();
    verify_identity(&mut store, old_owner, old_owner, T0).unwrap();

    initiate_transfer(&mut store, old_owner, old_owner, new_owner, T0 + 2).unwrap();

    let request = *store.get_transfer(old_owner, new_owner).unwrap();
    assert_eq!(request.from_owner, old_owner);
    assert_eq!(request.to_owner, new_owner);
    assert_eq!(request.identity, identity_address(old_owner));
    assert!(request.expires_at > request.created_at);
    assert_eq!(request.expires_at - request.created_at, TRANSFER_EXPIRY_SECONDS);
}
