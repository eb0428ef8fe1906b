use vstd::prelude::*;

verus! {

/// Seconds a pending transfer request stays claimable after creation.
pub const TRANSFER_EXPIRY_SECONDS: i64 = 7 * 24 * 60 * 60;

/// Identity age (in seconds) at which the stability component saturates.
pub const MAX_AGE_SECONDS: i64 = 365 * 24 * 60 * 60;

/// Minimum balance a record must hold per byte of stored data.
pub const RENT_EXEMPT_PER_BYTE: u64 = 2_000_000;

/// Stored size of an identity record: tag, owner, timestamp, flag, option.
pub const IDENTITY_RECORD_BYTES: u64 = 8 + 32 + 8 + 1 + 9;

/// Stored size of a credit-score record: tag, identity, score, level, timestamp.
pub const SCORE_RECORD_BYTES: u64 = 8 + 32 + 1 + 1 + 8;

/// Stored size of a transfer-request record: tag, three addresses, two timestamps.
pub const TRANSFER_RECORD_BYTES: u64 = 8 + 32 + 32 + 32 + 8 + 8;

/// Storage deposit backing an identity record while it exists.
pub const IDENTITY_DEPOSIT: u64 = IDENTITY_RECORD_BYTES * RENT_EXEMPT_PER_BYTE;

/// Storage deposit backing a credit-score record while it exists.
pub const SCORE_DEPOSIT: u64 = SCORE_RECORD_BYTES * RENT_EXEMPT_PER_BYTE;

/// Storage deposit backing a transfer-request record while it exists.
pub const TRANSFER_DEPOSIT: u64 = TRANSFER_RECORD_BYTES * RENT_EXEMPT_PER_BYTE;

} // verus!
