//! Rates, periods and the fee arithmetic of the credit ledger.
//!
//! Every rate is a fixed-point number scaled by [`SCALE_7`]. Each formula is
//! given once as mathematics and once as an executable function that returns
//! the same number, or reports that an intermediate product leaves the range
//! of a signed 128-bit amount.

use crate::error::Error;
use vstd::prelude::*;

verus! {

/// Fixed-point scale of every rate.
pub const SCALE_7: i128 = 10_000_000;

/// What a merchant pays on a bill: 1.5%.
pub const MERCHANT_FEE_RATE: i128 = 150_000;

/// Yearly interest on principal past the grace period: 30%.
pub const LATE_INTEREST_APR: i128 = 3_000_000;

/// Penalty on the principal of a liquidated bill: 1%.
pub const LIQUIDATION_PENALTY: i128 = 100_000;

/// Share of every fee that goes to the pool: 70%.
pub const FEE_TO_LP_RATIO: i128 = 7_000_000;

/// Share of every fee that goes to the treasury: 20%.
pub const FEE_TO_TREASURY_RATIO: i128 = 2_000_000;

/// Share of every fee that goes to the insurance fund: 10%.
pub const FEE_TO_INSURANCE_RATIO: i128 = 1_000_000;

/// What may be borrowed against a pool balance: 90%.
pub const MAX_LTV: i128 = 9_000_000;

/// Collateral required against debt: 111%.
pub const COLLATERAL_RATIO: i128 = 11_100_000;

/// Days within which a created bill can be paid.
pub const BILL_DURATION_DAYS: u64 = 1;

/// Days during which no late fee accrues.
pub const GRACE_PERIOD_DAYS: u64 = 14;

/// Days after creation from which a bill can be liquidated.
pub const LIQUIDATION_THRESHOLD_DAYS: u64 = 28;

/// Length of a day in seconds.
pub const SECONDS_PER_DAY: u64 = 86400;

/// Days of the year over which the yearly interest is spread.
pub const DAYS_PER_YEAR: i128 = 365;

/// Health factor reported where there is no debt.
pub const HEALTHY: i128 = 1;

/// `amount` times `rate`, scaled back.
pub open spec fn scaled(amount: int, rate: int) -> int {
    amount * rate / (SCALE_7 as int)
}

/// Whole days by which `now` is past the grace period that began at `since`.
pub open spec fn days_overdue(now: int, since: int) -> int {
    let grace = GRACE_PERIOD_DAYS * SECONDS_PER_DAY;
    if now <= since + grace {
        0
    } else {
        (now - since - grace) / (SECONDS_PER_DAY as int)
    }
}

/// Simple interest on `principal`: nothing during the grace period that began
/// at `since`, then the yearly rate for each whole day past it.
pub open spec fn late_fee(now: int, since: int, principal: int) -> int {
    principal * LATE_INTEREST_APR * days_overdue(now, since) / (DAYS_PER_YEAR * SCALE_7)
}

/// Whether the late fee can be computed in signed 128-bit amounts.
pub open spec fn late_fee_fits(now: int, since: int, principal: int) -> bool {
    principal * LATE_INTEREST_APR * days_overdue(now, since) <= i128::MAX
}

/// What the merchant pays on a bill of `principal`.
pub open spec fn merchant_fee(principal: int) -> int {
    scaled(principal, MERCHANT_FEE_RATE as int)
}

/// The penalty on a liquidated bill of `principal`.
pub open spec fn liquidation_penalty(principal: int) -> int {
    scaled(principal, LIQUIDATION_PENALTY as int)
}

/// What may be borrowed against a pool balance of `lp_balance`.
pub open spec fn max_borrowing(lp_balance: int) -> int {
    lp_balance * 90 / 100
}

/// The collateral required against `debt`.
pub open spec fn required_collateral(debt: int) -> int {
    scaled(debt, COLLATERAL_RATIO as int)
}

/// How a fee is split between pool, treasury and insurance fund.
pub struct FeeSplit {
    pub pool: i128,
    pub treasury: i128,
    pub insurance: i128,
}

/// The split of a fee of `amount`.
pub open spec fn fee_split(amount: int) -> (int, int, int) {
    (
        scaled(amount, FEE_TO_LP_RATIO as int),
        scaled(amount, FEE_TO_TREASURY_RATIO as int),
        scaled(amount, FEE_TO_INSURANCE_RATIO as int),
    )
}

/// Fee split: the three ratios add up to exactly the whole scale.
pub proof fn law_split_ratios_sum_to_scale()
    ensures
        FEE_TO_LP_RATIO + FEE_TO_TREASURY_RATIO + FEE_TO_INSURANCE_RATIO == SCALE_7,
{
}

/// Fee split: the three parts of a fee are not negative, together they do
/// not exceed the fee, and they fall short of it by less than three units,
/// which rounding each part down can lose.
pub proof fn law_split_stays_within_fee(amount: int)
    requires
        0 <= amount,
    ensures
        0 <= fee_split(amount).0,
        0 <= fee_split(amount).1,
        0 <= fee_split(amount).2,
        fee_split(amount).0 + fee_split(amount).1 + fee_split(amount).2 <= amount,
        amount - 3 < fee_split(amount).0 + fee_split(amount).1 + fee_split(amount).2,
{
}

/// `amount * rate / SCALE_7` for an amount that is not negative and a rate of
/// at most 200%; fails where the product leaves the signed 128-bit range.
fn apply_rate(amount: i128, rate: i128) -> (r: Option<i128>)
    requires
        0 <= amount,
        0 <= rate <= 2 * SCALE_7,
    ensures
        r == (if amount * rate <= i128::MAX {
            Some(scaled(amount as int, rate as int) as i128)
        } else {
            None
        }),
        r is Some ==> 0 <= r->Some_0 <= 2 * amount,
{
    match amount.checked_mul(rate) {
        None => None,
        Some(product) => {
            assert(product as int / (SCALE_7 as int) <= 2 * amount && 0 <= product as int / (SCALE_7 as int))
                by (nonlinear_arith)
                requires
                    product == amount * rate,
                    0 <= amount,
                    0 <= rate <= 2 * SCALE_7,
                    SCALE_7 == 10_000_000,
            ;
            Some(product / SCALE_7)
        },
    }
}

/// What the merchant pays on a bill of `principal`.
pub fn compute_merchant_fee(principal: i128) -> (r: Result<i128, Error>)
    ensures
        r == (if principal < 0 {
            Err::<i128, Error>(Error::InvalidAmount)
        } else if principal * MERCHANT_FEE_RATE > i128::MAX {
            Err::<i128, Error>(Error::InternalError)
        } else {
            Ok::<i128, Error>(merchant_fee(principal as int) as i128)
        }),
        r is Ok ==> 0 <= r->Ok_0 <= principal,
{
    if principal < 0 {
        return Err(Error::InvalidAmount);
    }
    match apply_rate(principal, MERCHANT_FEE_RATE) {
        None => Err(Error::InternalError),
        Some(fee) => Ok(fee),
    }
}

/// The penalty on a liquidated bill of `principal`.
pub fn compute_liquidation_penalty(principal: i128) -> (r: Result<i128, Error>)
    ensures
        r == (if principal < 0 {
            Err::<i128, Error>(Error::InvalidAmount)
        } else if principal * LIQUIDATION_PENALTY > i128::MAX {
            Err::<i128, Error>(Error::InternalError)
        } else {
            Ok::<i128, Error>(liquidation_penalty(principal as int) as i128)
        }),
        r is Ok ==> 0 <= r->Ok_0 <= principal,
{
    if principal < 0 {
        return Err(Error::InvalidAmount);
    }
    match apply_rate(principal, LIQUIDATION_PENALTY) {
        None => Err(Error::InternalError),
        Some(fee) => Ok(fee),
    }
}

/// The collateral required against `debt`.
pub fn compute_required_collateral(debt: i128) -> (r: Result<i128, Error>)
    ensures
        r == (if debt < 0 {
            Err::<i128, Error>(Error::InvalidAmount)
        } else if debt * COLLATERAL_RATIO > i128::MAX {
            Err::<i128, Error>(Error::InternalError)
        } else {
            Ok::<i128, Error>(required_collateral(debt as int) as i128)
        }),
        r is Ok ==> debt <= r->Ok_0,
{
    if debt < 0 {
        return Err(Error::InvalidAmount);
    }
    match apply_rate(debt, COLLATERAL_RATIO) {
        None => Err(Error::InternalError),
        Some(collateral) => Ok(collateral),
    }
}

/// Splits a fee of `amount` 70/20/10 between pool, treasury and insurance fund.
pub fn split_fee(amount: i128) -> (r: Result<FeeSplit, Error>)
    ensures
        r == (if amount < 0 {
            Err::<FeeSplit, Error>(Error::InvalidAmount)
        } else if amount * FEE_TO_LP_RATIO > i128::MAX {
            Err::<FeeSplit, Error>(Error::InternalError)
        } else {
            Ok::<FeeSplit, Error>(
                FeeSplit {
                    pool: fee_split(amount as int).0 as i128,
                    treasury: fee_split(amount as int).1 as i128,
                    insurance: fee_split(amount as int).2 as i128,
                },
            )
        }),
{
    if amount < 0 {
        return Err(Error::InvalidAmount);
    }
    let pool = match apply_rate(amount, FEE_TO_LP_RATIO) {
        None => {
            return Err(Error::InternalError);
        },
        Some(pool) => pool,
    };
    let treasury = apply_rate(amount, FEE_TO_TREASURY_RATIO);
    let insurance = apply_rate(amount, FEE_TO_INSURANCE_RATIO);
    match (treasury, insurance) {
        (Some(treasury), Some(insurance)) => Ok(FeeSplit { pool, treasury, insurance }),
        _ => Err(Error::InternalError),
    }
}

/// The late fee on `amount` at time `now`, for a grace period that began at `since`.
pub fn calc_late_fee(now: u64, since: u64, amount: i128) -> (r: Result<i128, Error>)
    ensures
        r == (if amount < 0 {
            Err::<i128, Error>(Error::InvalidAmount)
        } else if !late_fee_fits(now as int, since as int, amount as int) {
            Err::<i128, Error>(Error::InternalError)
        } else {
            Ok::<i128, Error>(late_fee(now as int, since as int, amount as int) as i128)
        }),
        r is Ok ==> 0 <= r->Ok_0,
{
    if amount < 0 {
        return Err(Error::InvalidAmount);
    }
    let grace: u64 = GRACE_PERIOD_DAYS * SECONDS_PER_DAY;
    if now <= since || now - since <= grace {
        assert(days_overdue(now as int, since as int) == 0);
        assert(amount * LATE_INTEREST_APR * 0 == 0) by (nonlinear_arith);
        return Ok(0);
    }
    let days: u64 = (now - since - grace) / SECONDS_PER_DAY;
    assert(days == days_overdue(now as int, since as int));
    if days == 0 {
        assert(amount * LATE_INTEREST_APR * 0 == 0) by (nonlinear_arith);
        return Ok(0);
    }
    let yearly = match amount.checked_mul(LATE_INTEREST_APR) {
        Some(yearly) => yearly,
        None => {
            assert(amount * LATE_INTEREST_APR * days >= amount * LATE_INTEREST_APR)
                by (nonlinear_arith)
                requires
                    days >= 1,
                    amount * LATE_INTEREST_APR >= 0,
            ;
            return Err(Error::InternalError);
        },
    };
    match yearly.checked_mul(days as i128) {
        None => Err(Error::InternalError),
        Some(accrued) => {
            assert(0 <= accrued as int / (DAYS_PER_YEAR * SCALE_7)) by (nonlinear_arith)
                requires
                    accrued == yearly * days,
                    yearly >= 0,
                    days >= 0,
                    DAYS_PER_YEAR * SCALE_7 == 3_650_000_000,
            ;
            Ok(accrued / (DAYS_PER_YEAR * SCALE_7))
        },
    }
}

} // verus!
