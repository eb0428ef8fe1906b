use identity_score::constants::{
    IDENTITY_DEPOSIT, MAX_AGE_SECONDS, SCORE_DEPOSIT, TRANSFER_DEPOSIT, TRANSFER_EXPIRY_SECONDS,
};
use identity_score::score::{
    calculate_asset_score, calculate_comprehensive_score, calculate_rent_efficiency_score,
    calculate_score_from_lamports, calculate_stability_score, calculate_verification_score,
    score_level_for,
};
use identity_score::{
    calculate_score, cancel_transfer, claim_transfer, create_identity, delete_identity,
    delete_score, initiate_transfer, unverify_identity, verify_identity, IdentityScoreError,
    RecordStore, ScoreLevel,
};

const LAMPORTS_PER_SOL: u64 = 1_000_000_000;

const T0: i64 = 1_700_000_000;

fn verified_owner(store: &mut RecordStore, owner: u64, balance: u64) {
    store.credit_balance(owner, balance);
    create_identity(store, owner, T0).unwrap();
    verify_identity(store, owner, owner, T0).unwrap();
}

#[test]
fn test_score_monotone_in_balance() {
    let balances: [u64; 9] = [
        0,
        1,
        10,
        1_000_000,
        500_000_000,
        5_000_000_000,
        15_000_000_000,
        10_000_000_000_000,
        u64::MAX,
    ];
    let mut previous: u8 = 0;
    for i in 0..balances.len() {
        let (score, _) = calculate_comprehensive_score(balances[i], T0, true, 50, T0 + 1000);
        assert!(score >= previous);
        previous = score;
    }
}

#[test]
fn test_score_always_within_range() {
    let balances: [u64; 7] = [0, 1, 9, 100_000_000, 5_000_000_000, 10_000_000_000, u64::MAX];
    for i in 0..balances.len() {
        let (score, level) = calculate_comprehensive_score(balances[i], T0, true, 50, T0);
        assert!(score >= 30 && score <= 90);
        assert_eq!(level, score_level_for(score));
    }
}

#[test]
fn test_tier_boundaries_exact() {
    assert_eq!(score_level_for(49), ScoreLevel::Low);
    assert_eq!(score_level_for(50), ScoreLevel::Medium);
    assert_eq!(score_level_for(69), ScoreLevel::Medium);
    assert_eq!(score_level_for(70), ScoreLevel::High);
    assert_eq!(score_level_for(0), ScoreLevel::Low);
    assert_eq!(score_level_for(90), ScoreLevel::High);
}

#[test]
fn test_asset_component_values() {
    assert_eq!(calculate_asset_score(0), 30);
    assert_eq!(calculate_asset_score(1), 30);
    assert_eq!(calculate_asset_score(9), 35);
    assert_eq!(calculate_asset_score(10), 36);
    assert_eq!(calculate_asset_score(5_000_000_000), 88);
    assert_eq!(calculate_asset_score(10_000_000_000), 90);
    assert_eq!(calculate_asset_score(u64::MAX), 90);
}

#[test]
fn test_asset_component_decade_boundaries() {
    assert_eq!(calculate_asset_score(99), 41);
    assert_eq!(calculate_asset_score(100), 42);
    assert_eq!(calculate_asset_score(9_999), 53);
    assert_eq!(calculate_asset_score(10_000), 54);
    assert_eq!(calculate_asset_score(9_999_999), 71);
    assert_eq!(calculate_asset_score(10_000_000), 72);
    assert_eq!(calculate_asset_score(999_999_999), 83);
    assert_eq!(calculate_asset_score(1_000_000_000), 84);
    assert_eq!(calculate_asset_score(9_999_999_999), 89);
}

#[test]
fn test_stability_component_values() {
    assert_eq!(calculate_stability_score(0, false, 0), 0);
    assert_eq!(calculate_stability_score(0, true, 0), 30);
    assert_eq!(calculate_stability_score(0, false, MAX_AGE_SECONDS), 60);
    assert_eq!(calculate_stability_score(0, true, MAX_AGE_SECONDS), 90);
    assert_eq!(calculate_stability_score(0, false, MAX_AGE_SECONDS / 2), 30);
    assert_eq!(calculate_stability_score(0, true, MAX_AGE_SECONDS - 1), 89);
    assert_eq!(calculate_stability_score(T0, true, T0 - 5), 30);
}

#[test]
fn test_rent_efficiency_component_values() {
    assert_eq!(calculate_rent_efficiency_score(0, 50), 30);
    assert_eq!(calculate_rent_efficiency_score(100_000_000, 50), 30);
    assert_eq!(calculate_rent_efficiency_score(550_000_000, 50), 60);
    assert_eq!(calculate_rent_efficiency_score(1_000_000_000, 50), 90);
    assert_eq!(calculate_rent_efficiency_score(u64::MAX, 0), 90);
}

#[test]
fn test_verification_component_values() {
    assert_eq!(calculate_verification_score(true), 90);
    assert_eq!(calculate_verification_score(false), 50);
}

#[test]
fn test_calculate_score_from_lamports_values() {
    let (score, level) = calculate_score_from_lamports(15 * LAMPORTS_PER_SOL, T0);
    assert_eq!(score, 90);
    assert_eq!(level, ScoreLevel::High);

    let (score, level) = calculate_score_from_lamports(0, T0);
    assert_eq!(score, 54);
    assert_eq!(level, ScoreLevel::Medium);
}

#[test]
fn test_verify_unverify_restores_record_exactly() {
    let mut store = RecordStore::new();
    let user: u64 = 7;
    store.credit_balance(user, LAMPORTS_PER_SOL);
    create_identity(&mut store, user, T0).unwrap();

    let before = *store.get_identity(user).unwrap();
    let balance_before = store.balance_of(user);

    verify_identity(&mut store, user, user, T0 + 50).unwrap();
    unverify_identity(&mut store, user, user).unwrap();

    let after = *store.get_identity(user).unwrap();
    assert_eq!(after, before);
    assert_eq!(after.verified, false);
    assert_eq!(after.verified_at, None);
    assert_eq!(store.balance_of(user), balance_before);
}

#[test]
fn test_claim_at_exact_expiry_succeeds() {
    let mut store = RecordStore::new();
    let old_owner: u64 = 1;
    let new_owner: u64 = 2;
    verified_owner(&mut store, old_owner, 10 * LAMPORTS_PER_SOL);

    initiate_transfer(&mut store, old_owner, old_owner, new_owner, T0).unwrap();
    let expires_at = store.get_transfer(old_owner, new_owner).unwrap().expires_at;
    assert_eq!(expires_at, T0 + TRANSFER_EXPIRY_SECONDS);

    let result = claim_transfer(&mut store, new_owner, old_owner, new_owner, expires_at);
    assert_eq!(result, Ok(()));
    assert!(store.get_identity(new_owner).is_some());
}

#[test]
fn test_claim_after_expiry_fails_expired() {
    let mut store = RecordStore::new();
    let old_owner: u64 = 1;
    let new_owner: u64 = 2;
    verified_owner(&mut store, old_owner, 10 * LAMPORTS_PER_SOL);

    initiate_transfer(&mut store, old_owner, old_owner, new_owner, T0).unwrap();
    let expires_at = store.get_transfer(old_owner, new_owner).unwrap().expires_at;

    let result = claim_transfer(&mut store, new_owner, old_owner, new_owner, expires_at + 1);
    assert_eq!(result, Err(IdentityScoreError::TransferExpired));
    assert!(store.get_identity(old_owner).is_some());
    assert!(store.get_transfer(old_owner, new_owner).is_some());
}

#[test]
fn test_claim_without_score_creates_no_score() {
    let mut store = RecordStore::new();
    let old_owner: u64 = 1;
    let new_owner: u64 = 2;
    verified_owner(&mut store, old_owner, 10 * LAMPORTS_PER_SOL);

    initiate_transfer(&mut store, old_owner, old_owner, new_owner, T0).unwrap();
    claim_transfer(&mut store, new_owner, old_owner, new_owner, T0 + 1).unwrap();

    assert!(store.get_score(old_owner).is_none());
    assert!(store.get_score(new_owner).is_none());
}

#[test]
fn test_claim_migrates_score_to_new_address() {
    let mut store = RecordStore::new();
    let old_owner: u64 = 1;
    let new_owner: u64 = 2;
    verified_owner(&mut store, old_owner, 15 * LAMPORTS_PER_SOL);
    calculate_score(&mut store, old_owner, old_owner, T0).unwrap();

    let old_score = *store.get_score(old_owner).unwrap();

    initiate_transfer(&mut store, old_owner, old_owner, new_owner, T0).unwrap();
    claim_transfer(&mut store, new_owner, old_owner, new_owner, T0 + 1).unwrap();

    let new_score = *store.get_score(new_owner).unwrap();
    assert_eq!(new_score.score, old_score.score);
    assert_eq!(new_score.score_level, old_score.score_level);
    assert_eq!(new_score.calculated_at, old_score.calculated_at);
    assert_ne!(new_score.identity, old_score.identity);
    assert!(store.get_score(old_owner).is_none());
}

#[test]
fn test_cancel_leaves_identity_untouched() {
    let mut store = RecordStore::new();
    let old_owner: u64 = 1;
    let new_owner: u64 = 2;
    verified_owner(&mut store, old_owner, 10 * LAMPORTS_PER_SOL);

    let before = *store.get_identity(old_owner).unwrap();

    initiate_transfer(&mut store, old_owner, old_owner, new_owner, T0).unwrap();
    cancel_transfer(&mut store, old_owner, old_owner, new_owner).unwrap();

    assert_eq!(*store.get_identity(old_owner).unwrap(), before);
    assert!(store.get_transfer(old_owner, new_owner).is_none());
}

#[test]
fn test_duplicate_initiate_fails_already_exists() {
    let mut store = RecordStore::new();
    let old_owner: u64 = 1;
    let new_owner: u64 = 2;
    verified_owner(&mut store, old_owner, 10 * LAMPORTS_PER_SOL);

    initiate_transfer(&mut store, old_owner, old_owner, new_owner, T0).unwrap();
    let result = initiate_transfer(&mut store, old_owner, old_owner, new_owner, T0 + 5);
    assert_eq!(result, Err(IdentityScoreError::AlreadyExists));
}

#[test]
fn test_delete_operations_tolerate_missing_score() {
    let mut store = RecordStore::new();
    let user: u64 = 1;
    store.credit_balance(user, LAMPORTS_PER_SOL);
    create_identity(&mut store, user, T0).unwrap();

    assert_eq!(delete_score(&mut store, user, user), Ok(()));
    assert!(store.get_identity(user).is_some());
    assert_eq!(delete_identity(&mut store, user, user), Ok(()));
    assert!(store.get_identity(user).is_none());
}

#[test]
fn test_unauthorized_callers_rejected_everywhere() {
    let mut store = RecordStore::new();
    let party_a: u64 = 1;
    let party_b: u64 = 2;
    let recipient: u64 = 3;
    verified_owner(&mut store, party_a, 15 * LAMPORTS_PER_SOL);
    calculate_score(&mut store, party_a, party_a, T0).unwrap();
    initiate_transfer(&mut store, party_a, party_a, recipient, T0).unwrap();

    let unauthorized = Err(IdentityScoreError::Unauthorized);
    assert_eq!(verify_identity(&mut store, party_b, party_a, T0 + 1), unauthorized);
    assert_eq!(unverify_identity(&mut store, party_b, party_a), unauthorized);
    assert_eq!(delete_identity(&mut store, party_b, party_a), unauthorized);
    assert_eq!(delete_score(&mut store, party_b, party_a), unauthorized);
    assert_eq!(calculate_score(&mut store, party_b, party_a, T0 + 1), unauthorized);
    assert_eq!(initiate_transfer(&mut store, party_b, party_a, party_b, T0 + 1), unauthorized);
    assert_eq!(cancel_transfer(&mut store, party_b, party_a, recipient), unauthorized);
    assert_eq!(claim_transfer(&mut store, party_b, party_a, recipient, T0 + 1), unauthorized);

    assert!(store.get_identity(party_a).is_some());
    assert!(store.get_score(party_a).is_some());
    assert!(store.get_transfer(party_a, recipient).is_some());
}

#[test]
fn test_missing_records_fail_not_found() {
    let mut store = RecordStore::new();
    let user: u64 = 1;
    let other: u64 = 2;

    let not_found = Err(IdentityScoreError::NotFound);
    assert_eq!(verify_identity(&mut store, user, user, T0), not_found);
    assert_eq!(unverify_identity(&mut store, user, user), not_found);
    assert_eq!(delete_identity(&mut store, user, user), not_found);
    assert_eq!(delete_score(&mut store, user, user), not_found);
    assert_eq!(calculate_score(&mut store, user, user, T0), not_found);
    assert_eq!(initiate_transfer(&mut store, user, user, other, T0), not_found);
    assert_eq!(cancel_transfer(&mut store, user, user, other), not_found);
    assert_eq!(claim_transfer(&mut store, other, user, other, T0), not_found);
}

#[test]
fn test_duplicate_create_fails_already_exists() {
    let mut store = RecordStore::new();
    let user: u64 = 1;
    create_identity(&mut store, user, T0).unwrap();
    assert_eq!(create_identity(&mut store, user, T0 + 1), Err(IdentityScoreError::AlreadyExists));
}

#[test]
fn test_unverified_identity_rejections() {
    let mut store = RecordStore::new();
    let user: u64 = 1;
    let other: u64 = 2;
    store.credit_balance(user, LAMPORTS_PER_SOL);
    create_identity(&mut store, user, T0).unwrap();

    assert_eq!(
        calculate_score(&mut store, user, user, T0),
        Err(IdentityScoreError::IdentityNotVerified)
    );
    assert_eq!(
        initiate_transfer(&mut store, user, user, other, T0),
        Err(IdentityScoreError::IdentityNotVerified)
    );
}

#[test]
fn test_claim_to_existing_identity_fails() {
    let mut store = RecordStore::new();
    let old_owner: u64 = 1;
    let new_owner: u64 = 2;
    verified_owner(&mut store, old_owner, 10 * LAMPORTS_PER_SOL);
    initiate_transfer(&mut store, old_owner, old_owner, new_owner, T0).unwrap();

    store.credit_balance(new_owner, LAMPORTS_PER_SOL);
    create_identity(&mut store, new_owner, T0 + 1).unwrap();

    let result = claim_transfer(&mut store, new_owner, old_owner, new_owner, T0 + 2);
    assert_eq!(result, Err(IdentityScoreError::AlreadyExists));
    assert!(store.get_identity(old_owner).is_some());
    assert!(store.get_transfer(old_owner, new_owner).is_some());
}

#[test]
fn test_deposit_refunds_on_close() {
    let mut store = RecordStore::new();
    let old_owner: u64 = 1;
    let new_owner: u64 = 2;
    verified_owner(&mut store, old_owner, 15 * LAMPORTS_PER_SOL);
    calculate_score(&mut store, old_owner, old_owner, T0).unwrap();

    let old_balance = store.balance_of(old_owner);
    let new_balance = store.balance_of(new_owner);

    initiate_transfer(&mut store, old_owner, old_owner, new_owner, T0).unwrap();
    claim_transfer(&mut store, new_owner, old_owner, new_owner, T0 + 1).unwrap();

    assert_eq!(store.balance_of(old_owner), old_balance + IDENTITY_DEPOSIT);
    assert_eq!(store.balance_of(new_owner), new_balance + TRANSFER_DEPOSIT + SCORE_DEPOSIT);
}

#[test]
fn test_cancel_refunds_initiator() {
    let mut store = RecordStore::new();
    let old_owner: u64 = 1;
    let new_owner: u64 = 2;
    verified_owner(&mut store, old_owner, 10 * LAMPORTS_PER_SOL);

    initiate_transfer(&mut store, old_owner, old_owner, new_owner, T0).unwrap();
    let balance = store.balance_of(old_owner);
    cancel_transfer(&mut store, old_owner, old_owner, new_owner).unwrap();

    assert_eq!(store.balance_of(old_owner), balance + TRANSFER_DEPOSIT);
    assert_eq!(store.balance_of(new_owner), 0);
}

#[test]
fn test_delete_identity_refunds_both_deposits() {
    let mut store = RecordStore::new();
    let user: u64 = 1;
    verified_owner(&mut store, user, 15 * LAMPORTS_PER_SOL);
    calculate_score(&mut store, user, user, T0).unwrap();

    let balance = store.balance_of(user);
    delete_identity(&mut store, user, user).unwrap();

    assert_eq!(store.balance_of(user), balance + IDENTITY_DEPOSIT + SCORE_DEPOSIT);
}

#[test]
fn test_balance_credit_saturates() {
    let mut store = RecordStore::new();
    let user: u64 = 1;
    store.credit_balance(user, u64::MAX - 5);
    store.credit_balance(user, 100);
    assert_eq!(store.balance_of(user), u64::MAX);
}

#[test]
fn test_recalculation_fully_replaces_score() {
    let mut store = RecordStore::new();
    let user: u64 = 1;
    verified_owner(&mut store, user, 500_000_000);
    calculate_score(&mut store, user, user, T0).unwrap();
    let first = *store.get_score(user).unwrap();

    store.credit_balance(user, 15 * LAMPORTS_PER_SOL);
    calculate_score(&mut store, user, user, T0 + 100).unwrap();
    let second = *store.get_score(user).unwrap();

    assert!(second.score > first.score);
    assert_eq!(second.calculated_at, T0 + 100);
    assert_eq!(second.identity, first.identity);
}

#[test]
fn test_level_names() {
    assert_eq!(ScoreLevel::Low.as_str(), "Low");
    assert_eq!(ScoreLevel::Medium.as_str(), "Medium");
    assert_eq!(ScoreLevel::High.as_str(), "High");
}
