use crate::constants::{MAX_AGE_SECONDS, RENT_EXEMPT_PER_BYTE, SCORE_DEPOSIT, SCORE_RECORD_BYTES};
use crate::errors::IdentityScoreError;
use crate::state::{spec_identity_address, identity_address, CreditScoreAccount, ScoreLevel};
use crate::store::{credited, spec_balance_of, RecordStore, StoreState};
use vstd::arithmetic::div_mod::{
    lemma_div_is_ordered, lemma_div_pos_is_pos, lemma_multiply_divide_lt,
};
use vstd::arithmetic::mul::lemma_mul_inequality;
use vstd::arithmetic::logarithm::{
    lemma_log0, lemma_log_is_ordered, lemma_log_nonnegative, lemma_log_pow, lemma_log_s, log,
};
use vstd::arithmetic::power::{lemma_pow1, lemma_pow_positive, pow};
use vstd::prelude::*;

verus! {

/// The sixth power, used to express `floor(6 * log10 n)` as
/// `floor(log10 (n^6))` over the integer logarithm.
pub open spec fn sixth_pow(n: int) -> int {
    n * n * n * n * n * n
}

/// `floor(6 * log10 n)`: the integer part of six times the decimal logarithm
/// of `n`, defined for `n >= 1`.
pub open spec fn six_log10(n: u64) -> int {
    log(10, sixth_pow(n as int))
}

/// The asset component: 30 at balance zero, otherwise
/// `30 + floor(60 * ln(lamports) / ln(10^10))`, capped at 90. Since
/// `60 / ln(10^10) = 6 / ln 10`, the fraction is exactly `6 * log10 lamports`.
pub open spec fn asset_component(lamports: u64) -> int {
    if lamports == 0 {
        30
    } else if six_log10(lamports) >= 60 {
        90
    } else {
        30 + six_log10(lamports)
    }
}

/// The stability component: the identity's age as a fraction of a year,
/// scaled to 60 and floored, plus 30 when verified, capped at 90.
pub open spec fn stability_component(identity_created_at: i64, is_verified: bool, current_timestamp: i64) -> int {
    let age = if current_timestamp >= identity_created_at {
        current_timestamp - identity_created_at
    } else {
        0
    };
    let age_score = if age >= MAX_AGE_SECONDS {
        60
    } else {
        60 * age / (MAX_AGE_SECONDS as int)
    };
    let bonus: int = if is_verified {
        30
    } else {
        0
    };
    if age_score + bonus >= 90 {
        90
    } else {
        age_score + bonus
    }
}

/// The minimum balance a record of `account_data_len` bytes must hold.
pub open spec fn rent_floor(account_data_len: u64) -> int {
    if account_data_len == 0 {
        RENT_EXEMPT_PER_BYTE as int
    } else {
        account_data_len * RENT_EXEMPT_PER_BYTE
    }
}

/// The storage-efficiency component: the balance-to-rent-floor ratio, clamped
/// to [1, 10], mapped affinely onto [30, 90] and floored.
pub open spec fn rent_efficiency_component(lamports: u64, account_data_len: u64) -> int {
    let rent = rent_floor(account_data_len);
    if lamports <= rent {
        30
    } else if lamports >= 10 * rent {
        90
    } else {
        30 + 60 * (lamports - rent) / (9 * rent)
    }
}

/// The verification component: 90 when verified, 50 otherwise.
pub open spec fn verification_component(is_verified: bool) -> int {
    if is_verified {
        90
    } else {
        50
    }
}

/// The composite score: the weighted sum of the four components with weights
/// 0.4, 0.3, 0.2 and 0.1, truncated to an integer.
pub open spec fn comprehensive_score(
    lamports: u64,
    identity_created_at: i64,
    is_verified: bool,
    account_data_len: u64,
    current_timestamp: i64,
) -> int {
    (4 * asset_component(lamports) + 3 * stability_component(
        identity_created_at,
        is_verified,
        current_timestamp,
    ) + 2 * rent_efficiency_component(lamports, account_data_len) + verification_component(
        is_verified,
    )) / 10
}

/// The tier a score falls in: High from 70 up, Medium from 50 up, else Low.
pub open spec fn spec_level_for(score: int) -> ScoreLevel {
    if score >= 70 {
        ScoreLevel::High
    } else if score >= 50 {
        ScoreLevel::Medium
    } else {
        ScoreLevel::Low
    }
}

/// The tier of the given score.
pub fn score_level_for(score: u8) -> (level: ScoreLevel)
    ensures
        level == spec_level_for(score as int),
{
    if score >= 70 {
        ScoreLevel::High
    } else if score >= 50 {
        ScoreLevel::Medium
    } else {
        ScoreLevel::Low
    }
}

/// The sixth power does not decrease on non-negative arguments.
proof fn lemma_sixth_pow_increases(a: int, b: int)
    requires
        0 <= a <= b,
    ensures
        sixth_pow(a) <= sixth_pow(b),
{
    let a3 = a * a * a;
    let b3 = b * b * b;
    assert(0 <= a * a * a && a * a * a <= b * b * b) by (nonlinear_arith)
        requires
            0 <= a && a <= b,
    ;
    assert(a3 * a3 <= b3 * b3) by (nonlinear_arith)
        requires
            0 <= a3 && a3 <= b3,
    ;
    assert(a * a * a * a * a * a == (a * a * a) * (a * a * a)) by (nonlinear_arith);
    assert(b * b * b * b * b * b == (b * b * b) * (b * b * b)) by (nonlinear_arith);
}

/// `six_log10` is never negative.
pub proof fn lemma_six_log10_nonneg(n: u64)
    requires
        1 <= n,
    ensures
        six_log10(n) >= 0,
{
    lemma_sixth_pow_increases(1, n as int);
    lemma_log_nonnegative(10, sixth_pow(n as int));
}

/// `six_log10` does not decrease with the balance.
pub proof fn lemma_six_log10_increases(a: u64, b: u64)
    requires
        1 <= a <= b,
    ensures
        six_log10(a) <= six_log10(b),
{
    lemma_sixth_pow_increases(1, a as int);
    lemma_sixth_pow_increases(a as int, b as int);
    lemma_log_is_ordered(10, sixth_pow(a as int), sixth_pow(b as int));
}

/// A number below `10^j` has decimal logarithm below `j`.
proof fn lemma_log10_lt(m: int, j: nat)
    requires
        0 <= m,
        1 <= j,
        m < pow(10, j),
    ensures
        log(10, m) < j,
    decreases j,
{
    reveal(pow);
    lemma_pow1(10);
    if m < 10 {
        lemma_log0(10, m);
    } else {
        assert(j != 1);
        lemma_log_s(10, m);
        assert(pow(10, j) == 10 * pow(10, (j - 1) as nat));
        lemma_multiply_divide_lt(m, 10, pow(10, (j - 1) as nat));
        lemma_div_pos_is_pos(m, 10);
        lemma_log10_lt(m / 10, (j - 1) as nat);
    }
}

/// Between the least `n` with `n^6 >= 10^j` (inclusive) and the least `n`
/// with `n^6 >= 10^(j+1)` (exclusive), `six_log10` is exactly `j`.
proof fn lemma_six_log10_bracket(n: u64, j: nat, t: int, t_next: int)
    requires
        1 <= t,
        t <= n as int,
        (n as int) < t_next,
        sixth_pow(t) >= pow(10, j),
        sixth_pow(t_next - 1) < pow(10, (j + 1) as nat),
    ensures
        six_log10(n) == j,
{
    let m = sixth_pow(n as int);
    lemma_sixth_pow_increases(t, n as int);
    lemma_sixth_pow_increases(n as int, t_next - 1);
    lemma_pow_positive(10, j);
    lemma_log_is_ordered(10, pow(10, j), m);
    lemma_log_pow(10, j);
    lemma_log10_lt(m, (j + 1) as nat);
}

/// From the least `n` with `n^6 >= 10^j` on, `six_log10` is at least `j`.
proof fn lemma_six_log10_at_least(n: u64, j: nat, t: int)
    requires
        1 <= t,
        t <= n as int,
        sixth_pow(t) >= pow(10, j),
    ensures
        six_log10(n) >= j,
{
    let m = sixth_pow(n as int);
    lemma_sixth_pow_increases(t, n as int);
    lemma_pow_positive(10, j);
    lemma_log_is_ordered(10, pow(10, j), m);
    lemma_log_pow(10, j);
}

/// The value of `pow(10, e)` for every exponent the asset score needs.
proof fn lemma_pow10_values()
    ensures
        pow(10, 0) == 1,
        pow(10, 1) == 10,
        pow(10, 2) == 100,
        pow(10, 3) == 1000,
        pow(10, 4) == 10000,
        pow(10, 5) == 100000,
        pow(10, 6) == 1000000,
        pow(10, 7) == 10000000,
        pow(10, 8) == 100000000,
        pow(10, 9) == 1000000000,
        pow(10, 10) == 10000000000,
        pow(10, 11) == 100000000000,
        pow(10, 12) == 1000000000000,
        pow(10, 13) == 10000000000000,
        pow(10, 14) == 100000000000000,
        pow(10, 15) == 1000000000000000,
        pow(10, 16) == 10000000000000000,
        pow(10, 17) == 100000000000000000,
        pow(10, 18) == 1000000000000000000,
        pow(10, 19) == 10000000000000000000,
        pow(10, 20) == 100000000000000000000,
        pow(10, 21) == 1000000000000000000000,
        pow(10, 22) == 10000000000000000000000,
        pow(10, 23) == 100000000000000000000000,
        pow(10, 24) == 1000000000000000000000000,
        pow(10, 25) == 10000000000000000000000000,
        pow(10, 26) == 100000000000000000000000000,
        pow(10, 27) == 1000000000000000000000000000,
        pow(10, 28) == 10000000000000000000000000000,
        pow(10, 29) == 100000000000000000000000000000,
        pow(10, 30) == 1000000000000000000000000000000,
        pow(10, 31) == 10000000000000000000000000000000,
        pow(10, 32) == 100000000000000000000000000000000,
        pow(10, 33) == 1000000000000000000000000000000000,
        pow(10, 34) == 10000000000000000000000000000000000,
        pow(10, 35) == 100000000000000000000000000000000000,
        pow(10, 36) == 1000000000000000000000000000000000000,
        pow(10, 37) == 10000000000000000000000000000000000000,
        pow(10, 38) == 100000000000000000000000000000000000000,
        pow(10, 39) == 1000000000000000000000000000000000000000,
        pow(10, 40) == 10000000000000000000000000000000000000000,
        pow(10, 41) == 100000000000000000000000000000000000000000,
        pow(10, 42) == 1000000000000000000000000000000000000000000,
        pow(10, 43) == 10000000000000000000000000000000000000000000,
        pow(10, 44) == 100000000000000000000000000000000000000000000,
        pow(10, 45) == 1000000000000000000000000000000000000000000000,
        pow(10, 46) == 10000000000000000000000000000000000000000000000,
        pow(10, 47) == 100000000000000000000000000000000000000000000000,
        pow(10, 48) == 1000000000000000000000000000000000000000000000000,
        pow(10, 49) == 10000000000000000000000000000000000000000000000000,
        pow(10, 50) == 100000000000000000000000000000000000000000000000000,
        pow(10, 51) == 1000000000000000000000000000000000000000000000000000,
        pow(10, 52) == 10000000000000000000000000000000000000000000000000000,
        pow(10, 53) == 100000000000000000000000000000000000000000000000000000,
        pow(10, 54) == 1000000000000000000000000000000000000000000000000000000,
        pow(10, 55) == 10000000000000000000000000000000000000000000000000000000,
        pow(10, 56) == 100000000000000000000000000000000000000000000000000000000,
        pow(10, 57) == 1000000000000000000000000000000000000000000000000000000000,
        pow(10, 58) == 10000000000000000000000000000000000000000000000000000000000,
        pow(10, 59) == 100000000000000000000000000000000000000000000000000000000000,
        pow(10, 60) == 1000000000000000000000000000000000000000000000000000000000000,
{
    reveal(pow);
    assert(pow(10, 0) == 1);
    assert(pow(10, 1) == 10);
    assert(pow(10, 2) == 100);
    assert(pow(10, 3) == 1000);
    assert(pow(10, 4) == 10000);
    assert(pow(10, 5) == 100000);
    assert(pow(10, 6) == 1000000);
    assert(pow(10, 7) == 10000000);
    assert(pow(10, 8) == 100000000);
    assert(pow(10, 9) == 1000000000);
    assert(pow(10, 10) == 10000000000);
    assert(pow(10, 11) == 100000000000);
    assert(pow(10, 12) == 1000000000000);
    assert(pow(10, 13) == 10000000000000);
    assert(pow(10, 14) == 100000000000000);
    assert(pow(10, 15) == 1000000000000000);
    assert(pow(10, 16) == 10000000000000000);
    assert(pow(10, 17) == 100000000000000000);
    assert(pow(10, 18) == 1000000000000000000);
    assert(pow(10, 19) == 10000000000000000000);
    assert(pow(10, 20) == 100000000000000000000);
    assert(pow(10, 21) == 1000000000000000000000);
    assert(pow(10, 22) == 10000000000000000000000);
    assert(pow(10, 23) == 100000000000000000000000);
    assert(pow(10, 24) == 1000000000000000000000000);
    assert(pow(10, 25) == 10000000000000000000000000);
    assert(pow(10, 26) == 100000000000000000000000000);
    assert(pow(10, 27) == 1000000000000000000000000000);
    assert(pow(10, 28) == 10000000000000000000000000000);
    assert(pow(10, 29) == 100000000000000000000000000000);
    assert(pow(10, 30) == 1000000000000000000000000000000);
    assert(pow(10, 31) == 10000000000000000000000000000000);
    assert(pow(10, 32) == 100000000000000000000000000000000);
    assert(pow(10, 33) == 1000000000000000000000000000000000);
    assert(pow(10, 34) == 10000000000000000000000000000000000);
    assert(pow(10, 35) == 100000000000000000000000000000000000);
    assert(pow(10, 36) == 1000000000000000000000000000000000000);
    assert(pow(10, 37) == 10000000000000000000000000000000000000);
    assert(pow(10, 38) == 100000000000000000000000000000000000000);
    assert(pow(10, 39) == 1000000000000000000000000000000000000000);
    assert(pow(10, 40) == 10000000000000000000000000000000000000000);
    assert(pow(10, 41) == 100000000000000000000000000000000000000000);
    assert(pow(10, 42) == 1000000000000000000000000000000000000000000);
    assert(pow(10, 43) == 10000000000000000000000000000000000000000000);
    assert(pow(10, 44) == 100000000000000000000000000000000000000000000);
    assert(pow(10, 45) == 1000000000000000000000000000000000000000000000);
    assert(pow(10, 46) == 10000000000000000000000000000000000000000000000);
    assert(pow(10, 47) == 100000000000000000000000000000000000000000000000);
    assert(pow(10, 48) == 1000000000000000000000000000000000000000000000000);
    assert(pow(10, 49) == 10000000000000000000000000000000000000000000000000);
    assert(pow(10, 50) == 100000000000000000000000000000000000000000000000000);
    assert(pow(10, 51) == 1000000000000000000000000000000000000000000000000000);
    assert(pow(10, 52) == 10000000000000000000000000000000000000000000000000000);
    assert(pow(10, 53) == 100000000000000000000000000000000000000000000000000000);
    assert(pow(10, 54) == 1000000000000000000000000000000000000000000000000000000);
    assert(pow(10, 55) == 10000000000000000000000000000000000000000000000000000000);
    assert(pow(10, 56) == 100000000000000000000000000000000000000000000000000000000);
    assert(pow(10, 57) == 1000000000000000000000000000000000000000000000000000000000);
    assert(pow(10, 58) == 10000000000000000000000000000000000000000000000000000000000);
    assert(pow(10, 59) == 100000000000000000000000000000000000000000000000000000000000);
    assert(pow(10, 60) == 1000000000000000000000000000000000000000000000000000000000000);
}

/// `six_log10`, capped at 60, computed by comparing the balance against the
/// precomputed least integers whose sixth powers reach each power of ten.
fn floor_six_log10(n: u64) -> (r: u8)
    requires
        1 <= n,
    ensures
        r as int == if six_log10(n) >= 60 {
            60 as int
        } else {
            six_log10(n)
        },
{
    proof {
        lemma_pow10_values();
    }
    if n >= 10000000000 {
        proof {
            lemma_six_log10_at_least(n, 60, 10000000000);
        }
        60
    } else if n >= 6812920691 {
        proof {
            lemma_six_log10_bracket(n, 59, 6812920691, 10000000000);
        }
        59
    } else if n >= 4641588834 {
        proof {
            lemma_six_log10_bracket(n, 58, 4641588834, 6812920691);
        }
        58
    } else if n >= 3162277661 {
        proof {
            lemma_six_log10_bracket(n, 57, 3162277661, 4641588834);
        }
        57
    } else if n >= 2154434691 {
        proof {
            lemma_six_log10_bracket(n, 56, 2154434691, 3162277661);
        }
        56
    } else if n >= 1467799268 {
        proof {
            lemma_six_log10_bracket(n, 55, 1467799268, 2154434691);
        }
        55
    } else if n >= 1000000000 {
        proof {
            lemma_six_log10_bracket(n, 54, 1000000000, 1467799268);
        }
        54
    } else if n >= 681292070 {
        proof {
            lemma_six_log10_bracket(n, 53, 681292070, 1000000000);
        }
        53
    } else if n >= 464158884 {
        proof {
            lemma_six_log10_bracket(n, 52, 464158884, 681292070);
        }
        52
    } else if n >= 316227767 {
        proof {
            lemma_six_log10_bracket(n, 51, 316227767, 464158884);
        }
        51
    } else if n >= 215443470 {
        proof {
            lemma_six_log10_bracket(n, 50, 215443470, 316227767);
        }
        50
    } else if n >= 146779927 {
        proof {
            lemma_six_log10_bracket(n, 49, 146779927, 215443470);
        }
        49
    } else if n >= 100000000 {
        proof {
            lemma_six_log10_bracket(n, 48, 100000000, 146779927);
        }
        48
    } else if n >= 68129207 {
        proof {
            lemma_six_log10_bracket(n, 47, 68129207, 100000000);
        }
        47
    } else if n >= 46415889 {
        proof {
            lemma_six_log10_bracket(n, 46, 46415889, 68129207);
        }
        46
    } else if n >= 31622777 {
        proof {
            lemma_six_log10_bracket(n, 45, 31622777, 46415889);
        }
        45
    } else if n >= 21544347 {
        proof {
            lemma_six_log10_bracket(n, 44, 21544347, 31622777);
        }
        44
    } else if n >= 14677993 {
        proof {
            lemma_six_log10_bracket(n, 43, 14677993, 21544347);
        }
        43
    } else if n >= 10000000 {
        proof {
            lemma_six_log10_bracket(n, 42, 10000000, 14677993);
        }
        42
    } else if n >= 6812921 {
        proof {
            lemma_six_log10_bracket(n, 41, 6812921, 10000000);
        }
        41
    } else if n >= 4641589 {
        proof {
            lemma_six_log10_bracket(n, 40, 4641589, 6812921);
        }
        40
    } else if n >= 3162278 {
        proof {
            lemma_six_log10_bracket(n, 39, 3162278, 4641589);
        }
        39
    } else if n >= 2154435 {
        proof {
            lemma_six_log10_bracket(n, 38, 2154435, 3162278);
        }
        38
    } else if n >= 1467800 {
        proof {
            lemma_six_log10_bracket(n, 37, 1467800, 2154435);
        }
        37
    } else if n >= 1000000 {
        proof {
            lemma_six_log10_bracket(n, 36, 1000000, 1467800);
        }
        36
    } else if n >= 681293 {
        proof {
            lemma_six_log10_bracket(n, 35, 681293, 1000000);
        }
        35
    } else if n >= 464159 {
        proof {
            lemma_six_log10_bracket(n, 34, 464159, 681293);
        }
        34
    } else if n >= 316228 {
        proof {
            lemma_six_log10_bracket(n, 33, 316228, 464159);
        }
        33
    } else if n >= 215444 {
        proof {
            lemma_six_log10_bracket(n, 32, 215444, 316228);
        }
        32
    } else if n >= 146780 {
        proof {
            lemma_six_log10_bracket(n, 31, 146780, 215444);
        }
        31
    } else if n >= 100000 {
        proof {
            lemma_six_log10_bracket(n, 30, 100000, 146780);
        }
        30
    } else if n >= 68130 {
        proof {
            lemma_six_log10_bracket(n, 29, 68130, 100000);
        }
        29
    } else if n >= 46416 {
        proof {
            lemma_six_log10_bracket(n, 28, 46416, 68130);
        }
        28
    } else if n >= 31623 {
        proof {
            lemma_six_log10_bracket(n, 27, 31623, 46416);
        }
        27
    } else if n >= 21545 {
        proof {
            lemma_six_log10_bracket(n, 26, 21545, 31623);
        }
        26
    } else if n >= 14678 {
        proof {
            lemma_six_log10_bracket(n, 25, 14678, 21545);
        }
        25
    } else if n >= 10000 {
        proof {
            lemma_six_log10_bracket(n, 24, 10000, 14678);
        }
        24
    } else if n >= 6813 {
        proof {
            lemma_six_log10_bracket(n, 23, 6813, 10000);
        }
        23
    } else if n >= 4642 {
        proof {
            lemma_six_log10_bracket(n, 22, 4642, 6813);
        }
        22
    } else if n >= 3163 {
        proof {
            lemma_six_log10_bracket(n, 21, 3163, 4642);
        }
        21
    } else if n >= 2155 {
        proof {
            lemma_six_log10_bracket(n, 20, 2155, 3163);
        }
        20
    } else if n >= 1468 {
        proof {
            lemma_six_log10_bracket(n, 19, 1468, 2155);
        }
        19
    } else if n >= 1000 {
        proof {
            lemma_six_log10_bracket(n, 18, 1000, 1468);
        }
        18
    } else if n >= 682 {
        proof {
            lemma_six_log10_bracket(n, 17, 682, 1000);
        }
        17
    } else if n >= 465 {
        proof {
            lemma_six_log10_bracket(n, 16, 465, 682);
        }
        16
    } else if n >= 317 {
        proof {
            lemma_six_log10_bracket(n, 15, 317, 465);
        }
        15
    } else if n >= 216 {
        proof {
            lemma_six_log10_bracket(n, 14, 216, 317);
        }
        14
    } else if n >= 147 {
        proof {
            lemma_six_log10_bracket(n, 13, 147, 216);
        }
        13
    } else if n >= 100 {
        proof {
            lemma_six_log10_bracket(n, 12, 100, 147);
        }
        12
    } else if n >= 69 {
        proof {
            lemma_six_log10_bracket(n, 11, 69, 100);
        }
        11
    } else if n >= 47 {
        proof {
            lemma_six_log10_bracket(n, 10, 47, 69);
        }
        10
    } else if n >= 32 {
        proof {
            lemma_six_log10_bracket(n, 9, 32, 47);
        }
        9
    } else if n >= 22 {
        proof {
            lemma_six_log10_bracket(n, 8, 22, 32);
        }
        8
    } else if n >= 15 {
        proof {
            lemma_six_log10_bracket(n, 7, 15, 22);
        }
        7
    } else if n >= 10 {
        proof {
            lemma_six_log10_bracket(n, 6, 10, 15);
        }
        6
    } else if n >= 7 {
        proof {
            lemma_six_log10_bracket(n, 5, 7, 10);
        }
        5
    } else if n >= 5 {
        proof {
            lemma_six_log10_bracket(n, 4, 5, 7);
        }
        4
    } else if n >= 4 {
        proof {
            lemma_six_log10_bracket(n, 3, 4, 5);
        }
        3
    } else if n >= 3 {
        proof {
            lemma_six_log10_bracket(n, 2, 3, 4);
        }
        2
    } else if n >= 2 {
        proof {
            lemma_six_log10_bracket(n, 1, 2, 3);
        }
        1
    } else {
        proof {
            assert(sixth_pow(1) == 1);
            lemma_six_log10_bracket(n, 0, 1, 2);
        }
        0
    }
}

/// The asset component of the score.
pub fn calculate_asset_score(lamports: u64) -> (r: u8)
    ensures
        r as int == asset_component(lamports),
{
    if lamports == 0 {
        return 30;
    }
    let f = floor_six_log10(lamports);
    proof {
        lemma_six_log10_nonneg(lamports);
    }
    30 + f
}

/// The stability component of the score.
pub fn calculate_stability_score(
    identity_created_at: i64,
    is_verified: bool,
    current_timestamp: i64,
) -> (r: u8)
    ensures
        r as int == stability_component(identity_created_at, is_verified, current_timestamp),
{
    let age_wide: i128 = current_timestamp as i128 - identity_created_at as i128;
    let age_score: u8 = if age_wide <= 0 {
        0
    } else if age_wide >= MAX_AGE_SECONDS as i128 {
        60
    } else {
        proof {
            lemma_multiply_divide_lt(60 * age_wide as int, MAX_AGE_SECONDS as int, 60);
            lemma_div_pos_is_pos(60 * age_wide as int, MAX_AGE_SECONDS as int);
        }
        ((60 * age_wide) / (MAX_AGE_SECONDS as i128)) as u8
    };
    let bonus: u8 = if is_verified {
        30
    } else {
        0
    };
    let total = age_score + bonus;
    if total >= 90 {
        90
    } else {
        total
    }
}

/// The storage-efficiency component of the score.
pub fn calculate_rent_efficiency_score(lamports: u64, account_data_len: u64) -> (r: u8)
    ensures
        r as int == rent_efficiency_component(lamports, account_data_len),
{
    let rent: u128 = if account_data_len == 0 {
        RENT_EXEMPT_PER_BYTE as u128
    } else {
        proof {
            lemma_mul_inequality(
                account_data_len as int,
                u64::MAX as int,
                RENT_EXEMPT_PER_BYTE as int,
            );
        }
        account_data_len as u128 * RENT_EXEMPT_PER_BYTE as u128
    };
    let l = lamports as u128;
    if l <= rent {
        30
    } else if l >= 10 * rent {
        90
    } else {
        proof {
            lemma_multiply_divide_lt(60 * (l - rent) as int, 9 * rent as int, 60);
            lemma_div_pos_is_pos(60 * (l - rent) as int, 9 * rent as int);
        }
        (30 + 60 * (l - rent) / (9 * rent)) as u8
    }
}

/// The verification component of the score.
pub fn calculate_verification_score(is_verified: bool) -> (r: u8)
    ensures
        r as int == verification_component(is_verified),
{
    if is_verified {
        90
    } else {
        50
    }
}

/// Computes the composite score and its tier from the owner's balance, the
/// identity's age and verification flag, and the score record's storage
/// footprint.
pub fn calculate_comprehensive_score(
    lamports: u64,
    identity_created_at: i64,
    is_verified: bool,
    account_data_len: u64,
    current_timestamp: i64,
) -> (r: (u8, ScoreLevel))
    ensures
        r.0 as int == comprehensive_score(
            lamports,
            identity_created_at,
            is_verified,
            account_data_len,
            current_timestamp,
        ),
        r.1 == spec_level_for(
            comprehensive_score(
                lamports,
                identity_created_at,
                is_verified,
                account_data_len,
                current_timestamp,
            ),
        ),
{
    let asset = calculate_asset_score(lamports);
    let stability = calculate_stability_score(identity_created_at, is_verified, current_timestamp);
    let rent_efficiency = calculate_rent_efficiency_score(lamports, account_data_len);
    let verification = calculate_verification_score(is_verified);
    let weighted: u32 = 4 * asset as u32 + 3 * stability as u32 + 2 * rent_efficiency as u32
        + verification as u32;
    let total_score = (weighted / 10) as u8;
    let level = score_level_for(total_score);
    (total_score, level)
}

/// The composite score for a balance alone, with a fresh verified identity
/// and the default storage footprint.
pub fn calculate_score_from_lamports(lamports: u64, current_timestamp: i64) -> (r: (
    u8,
    ScoreLevel,
))
    ensures
        r.0 as int == comprehensive_score(lamports, 0, true, 100, current_timestamp),
        r.1 == spec_level_for(comprehensive_score(lamports, 0, true, 100, current_timestamp)),
{
    calculate_comprehensive_score(lamports, 0, true, 100, current_timestamp)
}

/// What `calculate_score` does to the store: it validates existence,
/// ownership and verification of the caller's identity, then writes the
/// freshly computed score record, replacing any previous one entirely.
pub open spec fn calculate_score_transition(s: StoreState, caller: u64, owner: u64, now: i64) -> (
    StoreState,
    Result<(), IdentityScoreError>,
) {
    if !s.identities.contains_key(owner) {
        (s, Err(IdentityScoreError::NotFound))
    } else if s.identities[owner].owner != caller {
        (s, Err(IdentityScoreError::Unauthorized))
    } else if !s.identities[owner].verified {
        (s, Err(IdentityScoreError::IdentityNotVerified))
    } else {
        let score = comprehensive_score(
            spec_balance_of(s, owner),
            s.identities[owner].created_at,
            s.identities[owner].verified,
            SCORE_RECORD_BYTES,
            now,
        );
        let record = CreditScoreAccount {
            identity: spec_identity_address(owner),
            score: score as u8,
            score_level: spec_level_for(score),
            calculated_at: now,
        };
        (StoreState { scores: s.scores.insert(owner, record), ..s }, Ok(()))
    }
}

/// Recomputes and stores the caller's score record from the current balance
/// and identity metadata. The identity must exist, belong to the caller and
/// be verified; recomputation fully replaces any prior score record.
pub fn calculate_score(store: &mut RecordStore, caller: u64, owner: u64, now: i64) -> (r: Result<
    (),
    IdentityScoreError,
>)
    requires
        old(store).wf(),
    ensures
        final(store).wf(),
        final(store)@ == calculate_score_transition(old(store)@, caller, owner, now).0,
        r == calculate_score_transition(old(store)@, caller, owner, now).1,
{
    let identity = match store.get_identity(owner) {
        Some(rec) => *rec,
        None => {
            return Err(IdentityScoreError::NotFound);
        },
    };
    if identity.owner != caller {
        return Err(IdentityScoreError::Unauthorized);
    }
    if !identity.verified {
        return Err(IdentityScoreError::IdentityNotVerified);
    }
    let lamports = store.balance_of(owner);
    let (score, level) = calculate_comprehensive_score(
        lamports,
        identity.created_at,
        identity.verified,
        SCORE_RECORD_BYTES,
        now,
    );
    store.set_score(
        owner,
        CreditScoreAccount {
            identity: identity_address(owner),
            score,
            score_level: level,
            calculated_at: now,
        },
    );
    Ok(())
}

/// What `delete_score` does to the store: it validates the identity and,
/// when a score record exists and references it, removes the record and
/// refunds its deposit to the owner; an absent score record is not a failure.
pub open spec fn delete_score_transition(s: StoreState, caller: u64, owner: u64) -> (
    StoreState,
    Result<(), IdentityScoreError>,
) {
    if !s.identities.contains_key(owner) {
        (s, Err(IdentityScoreError::NotFound))
    } else if s.identities[owner].owner != caller {
        (s, Err(IdentityScoreError::Unauthorized))
    } else if !s.scores.contains_key(owner) {
        (s, Ok(()))
    } else if s.scores[owner].identity != spec_identity_address(owner) {
        (s, Err(IdentityScoreError::Unauthorized))
    } else {
        (
            credited(StoreState { scores: s.scores.remove(owner), ..s }, owner, SCORE_DEPOSIT),
            Ok(()),
        )
    }
}

/// Closes the caller's score record if one exists, refunding its deposit to
/// the owner. The score record's absence is not a failure: the operation
/// then succeeds without effect.
pub fn delete_score(store: &mut RecordStore, caller: u64, owner: u64) -> (r: Result<
    (),
    IdentityScoreError,
>)
    requires
        old(store).wf(),
    ensures
        final(store).wf(),
        final(store)@ == delete_score_transition(old(store)@, caller, owner).0,
        r == delete_score_transition(old(store)@, caller, owner).1,
{
    let identity = match store.get_identity(owner) {
        Some(rec) => *rec,
        None => {
            return Err(IdentityScoreError::NotFound);
        },
    };
    if identity.owner != caller {
        return Err(IdentityScoreError::Unauthorized);
    }
    let score = match store.get_score(owner) {
        Some(rec) => *rec,
        None => {
            return Ok(());
        },
    };
    if score.identity != identity_address(owner) {
        return Err(IdentityScoreError::Unauthorized);
    }
    store.remove_score(owner);
    store.credit_balance(owner, SCORE_DEPOSIT);
    Ok(())
}

} // verus!
