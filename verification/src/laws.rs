//! What holds of the ledgers whatever is done with them.
//!
//! Each law is a theorem about the ledgers as mathematics ([`PoolState`],
//! [`TokenState`], the fee formulas). Since every executable operation is
//! proved to take the step that the mathematics describes, the laws hold of
//! the executable ledgers as well.

use crate::bnpl_core::CoreState;
use crate::error::PoolError;
use crate::fees::{
    days_overdue, late_fee, DAYS_PER_YEAR, GRACE_PERIOD_DAYS, LATE_INTEREST_APR, SCALE_7,
    SECONDS_PER_DAY,
};
use crate::ledger::Address;
use crate::lp_token::{
    index_after_yield, lemma_index_after_yield, shares_for, total_assets, value_of, PoolState,
    DECIMALS,
};
use crate::types::BillStatus;
use crate::usdc_token::TokenState;
use vstd::prelude::*;

verus! {

/// Something that can be done to the pool and the asset it holds.
pub enum PoolAction {
    /// `from` deposits `amount`.
    Deposit { from: Address, amount: int },
    /// `from` withdraws `amount` while `required_collateral` is reported for it.
    Withdraw { from: Address, amount: int, required_collateral: int },
    /// Yield arrives: `from` transfers `amount` of the asset to the pool's account.
    InjectYield { from: Address, amount: int },
    /// Pending yield is applied to the index.
    UpdateIndex,
    /// The credit ledger borrows `amount`, paid out to `to`.
    Borrow { to: Address, amount: int },
    /// `from` repays `amount`.
    Repay { from: Address, amount: int },
    /// A liquidation burns `from`'s shares for `principal` and `fee`.
    RepayWithBurn { from: Address, principal: int, fee: int },
    /// The administrator mints shares for `amount` to `to`.
    Mint { to: Address, amount: int },
    /// `from` hands `amount` of its balance to `to`.
    Transfer { from: Address, to: Address, amount: int, required_collateral: int },
    /// `from` burns `amount` of its balance.
    Burn { from: Address, amount: int, required_collateral: int },
    /// The credit ledger is configured.
    SetCreditLedger { bnpl_core: Address },
}

/// Pool and asset ledger after `action`; an action that is rejected changes nothing.
pub open spec fn after(pool: PoolState, token: TokenState, action: PoolAction) -> (
    PoolState,
    TokenState,
) {
    let unchanged = (pool, token);
    match action {
        PoolAction::Deposit { from, amount } => match pool.deposit(token, from, amount) {
            Ok(next) => next,
            Err(_) => unchanged,
        },
        PoolAction::Withdraw { from, amount, required_collateral } => match pool.withdraw(
            token,
            from,
            amount,
            required_collateral,
        ) {
            Ok(next) => next,
            Err(_) => unchanged,
        },
        PoolAction::InjectYield { from, amount } => match token.transfer(
            from,
            pool.address,
            amount,
        ) {
            Ok(paid) => (pool, paid),
            Err(_) => unchanged,
        },
        PoolAction::UpdateIndex => match pool.update_index(token.balances[pool.address] as int) {
            Ok(next) => (next, token),
            Err(_) => unchanged,
        },
        PoolAction::Borrow { to, amount } => match pool.borrow(token, to, amount) {
            Ok(next) => next,
            Err(_) => unchanged,
        },
        PoolAction::Repay { from, amount } => match pool.repay(token, from, amount) {
            Ok(next) => next,
            Err(_) => unchanged,
        },
        PoolAction::RepayWithBurn { from, principal, fee } => match pool.repay_with_burn(
            token,
            from,
            principal,
            fee,
        ) {
            Ok(next) => next,
            Err(_) => unchanged,
        },
        PoolAction::Mint { to, amount } => match pool.mint(to, amount) {
            Ok(next) => (next, token),
            Err(_) => unchanged,
        },
        PoolAction::Transfer { from, to, amount, required_collateral } => match pool.transfer(
            from,
            to,
            amount,
            required_collateral,
        ) {
            Ok(next) => (next, token),
            Err(_) => unchanged,
        },
        PoolAction::Burn { from, amount, required_collateral } => match pool.burn(
            from,
            amount,
            required_collateral,
        ) {
            Ok(next) => (next, token),
            Err(_) => unchanged,
        },
        PoolAction::SetCreditLedger { bnpl_core } => match pool.set_bnpl_core(bnpl_core) {
            Ok(next) => (next, token),
            Err(_) => unchanged,
        },
    }
}

/// Pool and asset ledger after the `actions`, first to last.
pub open spec fn after_all(pool: PoolState, token: TokenState, actions: Seq<PoolAction>) -> (
    PoolState,
    TokenState,
)
    decreases actions.len(),
{
    if actions.len() == 0 {
        (pool, token)
    } else {
        let before = after_all(pool, token, actions.drop_last());
        after(before.0, before.1, actions.last())
    }
}

/// No action lowers the index.
pub proof fn law_no_action_lowers_index(pool: PoolState, token: TokenState, action: PoolAction)
    ensures
        pool.index <= after(pool, token, action).0.index,
{
    lemma_index_after_yield(
        pool.index,
        pool.supply,
        total_assets(token.balances[pool.address] as int, pool.borrowed),
    );
}

/// Index monotonicity: whatever sequence of deposits, withdrawals, yield
/// injections, index updates, loans, repayments, liquidations, mints,
/// transfers and burns is run, the index afterwards is no lower than before.
pub proof fn law_index_never_falls(pool: PoolState, token: TokenState, actions: Seq<PoolAction>)
    ensures
        pool.index <= after_all(pool, token, actions).0.index,
    decreases actions.len(),
{
    if actions.len() > 0 {
        law_index_never_falls(pool, token, actions.drop_last());
        let before = after_all(pool, token, actions.drop_last());
        law_no_action_lowers_index(before.0, before.1, actions.last());
    }
}

/// Index monotonicity of a single update: the index after `update_index` is at
/// least its value before, and where it rises, the shares are worth no more
/// than the pool's assets.
pub proof fn law_update_index_only_raises(pool: PoolState, underlying: int)
    ensures
        pool.update_index(underlying) matches Ok(next) ==> pool.index <= next.index && (next.index
            != pool.index ==> next.total_supply() <= total_assets(underlying, pool.borrowed)),
{
    let assets = total_assets(underlying, pool.borrowed);
    lemma_index_after_yield(pool.index, pool.supply, assets);
    let raised = index_after_yield(pool.index, pool.supply, assets);
    if raised != pool.index {
        assert(pool.supply * raised / (DECIMALS as nat) <= assets) by (nonlinear_arith)
            requires
                pool.supply * raised <= assets * DECIMALS,
                DECIMALS == 1_000_000_000,
        ;
    }
}

/// Idempotence: a second `update_index` with no new yield in between leaves
/// the pool as the first one left it.
pub proof fn law_update_index_is_idempotent(pool: PoolState, underlying: int)
    ensures
        pool.update_index(underlying) matches Ok(next) ==> next.update_index(underlying) == Ok::<
            PoolState,
            PoolError,
        >(next),
{
    let assets = total_assets(underlying, pool.borrowed);
    lemma_index_after_yield(pool.index, pool.supply, assets);
    if pool.update_index(underlying) is Ok {
        let next = pool.update_index(underlying)->Ok_0;
        if next.index != pool.index {
            // The index was raised to `assets * DECIMALS / supply`; a second
            // update either finds the shares worth the assets, or raises the
            // index to the same value again.
            assert(index_after_yield(next.index, next.supply, assets) == next.index);
        }
    }
}

/// Locked and total balance: what is available is never negative and never
/// more than the balance, and it is nothing where the collateral required
/// reaches or exceeds the balance.
pub proof fn law_available_balance_clamps(pool: PoolState, account: Address, required_collateral: int)
    ensures
        0 <= pool.available(account, required_collateral) <= pool.balance(account),
        pool.locked(required_collateral) >= pool.balance(account) ==> pool.available(
            account,
            required_collateral,
        ) == 0,
        pool.locked(required_collateral) <= pool.balance(account) ==> pool.available(
            account,
            required_collateral,
        ) + pool.locked(required_collateral) == pool.balance(account),
{
}

/// The late fee on `principal` at `days` whole days and `seconds` further
/// seconds past the end of a grace period that began at `since`.
pub open spec fn late_fee_after(since: int, principal: int, days: int, seconds: int) -> int {
    late_fee(
        since + (GRACE_PERIOD_DAYS + days) * SECONDS_PER_DAY + seconds,
        since,
        principal,
    )
}

/// Grace period: up to and including its last second no late fee is due.
pub proof fn law_no_late_fee_within_grace_period(now: int, since: int, principal: int)
    requires
        now <= since + GRACE_PERIOD_DAYS * SECONDS_PER_DAY,
    ensures
        late_fee(now, since, principal) == 0,
{
    assert(days_overdue(now, since) == 0);
    assert(principal * LATE_INTEREST_APR * 0 == 0) by (nonlinear_arith);
}

/// Elapsed time counts in whole days: the seconds of a day that has not
/// ended change nothing, so within the first day past the grace period the
/// fee is still zero.
pub proof fn law_late_fee_counts_whole_days(since: int, principal: int, days: int, seconds: int)
    requires
        0 <= days,
        0 <= seconds < SECONDS_PER_DAY,
    ensures
        late_fee_after(since, principal, days, seconds) == late_fee_after(since, principal, days, 0),
        late_fee_after(since, principal, 0, seconds) == 0,
        late_fee_after(since, principal, days, 0) == principal * LATE_INTEREST_APR * days / (
        DAYS_PER_YEAR * SCALE_7),
{
    let now = since + (GRACE_PERIOD_DAYS + days) * SECONDS_PER_DAY + seconds;
    assert(days_overdue(now, since) == days) by {
        assert(now - since - GRACE_PERIOD_DAYS * SECONDS_PER_DAY == days * 86400 + seconds)
            by (nonlinear_arith)
            requires
                now == since + (GRACE_PERIOD_DAYS + days) * SECONDS_PER_DAY + seconds,
                SECONDS_PER_DAY == 86400,
                GRACE_PERIOD_DAYS == 14,
        ;
        assert((days * 86400 + seconds) / 86400 == days) by (nonlinear_arith)
            requires
                0 <= days,
                0 <= seconds < 86400,
        ;
        if days > 0 || seconds > 0 {
            assert(now > since + GRACE_PERIOD_DAYS * SECONDS_PER_DAY) by (nonlinear_arith)
                requires
                    now == since + (GRACE_PERIOD_DAYS + days) * SECONDS_PER_DAY + seconds,
                    SECONDS_PER_DAY == 86400,
                    GRACE_PERIOD_DAYS == 14,
                    0 <= days,
                    0 <= seconds,
                    days > 0 || seconds > 0,
            ;
        }
    }
    let start = since + (GRACE_PERIOD_DAYS + days) * SECONDS_PER_DAY;
    assert(days_overdue(start, since) == days) by {
        assert(start - since - GRACE_PERIOD_DAYS * SECONDS_PER_DAY == days * 86400)
            by (nonlinear_arith)
            requires
                start == since + (GRACE_PERIOD_DAYS + days) * SECONDS_PER_DAY,
                SECONDS_PER_DAY == 86400,
                GRACE_PERIOD_DAYS == 14,
        ;
        assert((days * 86400) / 86400 == days) by (nonlinear_arith)
            requires
                0 <= days,
        ;
    }
    assert(days_overdue(since + (GRACE_PERIOD_DAYS + 0) * SECONDS_PER_DAY + seconds, since) == 0)
        by {
        assert(seconds / 86400 == 0);
    }
    assert(principal * LATE_INTEREST_APR * 0 == 0) by (nonlinear_arith);
}

/// Past the grace period the fee is due: from the first whole day on it is
/// positive for every principal on which a day's interest is at least one unit.
pub proof fn law_late_fee_positive_after_grace_period(since: int, principal: int, days: int, seconds: int)
    requires
        1 <= days,
        0 <= seconds < SECONDS_PER_DAY,
        principal * LATE_INTEREST_APR >= DAYS_PER_YEAR * SCALE_7,
    ensures
        late_fee_after(since, principal, days, seconds) > 0,
{
    law_late_fee_counts_whole_days(since, principal, days, seconds);
    assert(principal * LATE_INTEREST_APR * days / (DAYS_PER_YEAR * SCALE_7) > 0)
        by (nonlinear_arith)
        requires
            1 <= days,
            principal * LATE_INTEREST_APR >= DAYS_PER_YEAR * SCALE_7,
            DAYS_PER_YEAR * SCALE_7 == 3_650_000_000,
    ;
}

/// The fee grows linearly with the days: the fee for `a + b` days is the fee
/// for `a` days plus the fee for `b` days, up to the one unit that rounding
/// down each of them can lose.
pub proof fn law_late_fee_grows_linearly(since: int, principal: int, a: int, b: int)
    requires
        0 <= principal,
        0 <= a,
        0 <= b,
    ensures
        late_fee_after(since, principal, a, 0) + late_fee_after(since, principal, b, 0)
            <= late_fee_after(since, principal, a + b, 0),
        late_fee_after(since, principal, a + b, 0) <= late_fee_after(since, principal, a, 0)
            + late_fee_after(since, principal, b, 0) + 1,
        a <= b ==> late_fee_after(since, principal, a, 0) <= late_fee_after(
            since,
            principal,
            b,
            0,
        ),
{
    law_late_fee_counts_whole_days(since, principal, a, 0);
    law_late_fee_counts_whole_days(since, principal, b, 0);
    law_late_fee_counts_whole_days(since, principal, a + b, 0);
    let yearly = principal * LATE_INTEREST_APR;
    let year = DAYS_PER_YEAR * SCALE_7;
    assert(yearly * (a + b) == yearly * a + yearly * b) by (nonlinear_arith);
    assert(0 <= yearly * a && 0 <= yearly * b) by (nonlinear_arith)
        requires
            0 <= yearly,
            0 <= a,
            0 <= b,
    ;
    lemma_floor_of_sum(yearly * a, yearly * b, year);
    if a <= b {
        assert(yearly * a <= yearly * b) by (nonlinear_arith)
            requires
                0 <= yearly,
                a <= b,
        ;
        vstd::arithmetic::div_mod::lemma_div_is_ordered(yearly * a, yearly * b, year);
    }
}

/// Rounding down a sum loses at most one unit more than rounding down its parts.
pub proof fn lemma_floor_of_sum(x: int, y: int, d: int)
    requires
        0 < d,
    ensures
        x / d + y / d <= (x + y) / d <= x / d + y / d + 1,
{
    vstd::arithmetic::div_mod::lemma_fundamental_div_mod(x, d);
    vstd::arithmetic::div_mod::lemma_fundamental_div_mod(y, d);
    vstd::arithmetic::div_mod::lemma_fundamental_div_mod(x + y, d);
    vstd::arithmetic::div_mod::lemma_mod_bound(x, d);
    vstd::arithmetic::div_mod::lemma_mod_bound(y, d);
    vstd::arithmetic::div_mod::lemma_mod_bound(x + y, d);
    let qx = x / d;
    let qy = y / d;
    let q = (x + y) / d;
    assert(qx + qy <= q <= qx + qy + 1) by (nonlinear_arith)
        requires
            0 < d,
            x == d * qx + x % d,
            y == d * qy + y % d,
            x + y == d * q + (x + y) % d,
            0 <= x % d < d,
            0 <= y % d < d,
            0 <= (x + y) % d < d,
    ;
}

/// What the pool's assets amount to: what it holds of the asset plus what it has lent out.
pub open spec fn assets_of(pool: PoolState, token: TokenState) -> int {
    total_assets(token.balances[pool.address] as int, pool.borrowed)
}

/// Adding at most `a` whole units of the divisor adds at most `a` to the quotient.
pub proof fn lemma_quotient_step(x: int, y: int, a: int, d: int)
    requires
        0 < d,
        0 <= y <= a * d,
    ensures
        x / d <= (x + y) / d <= x / d + a,
{
    vstd::arithmetic::div_mod::lemma_fundamental_div_mod(x, d);
    vstd::arithmetic::div_mod::lemma_fundamental_div_mod(x + y, d);
    vstd::arithmetic::div_mod::lemma_mod_bound(x, d);
    vstd::arithmetic::div_mod::lemma_mod_bound(x + y, d);
    let q = x / d;
    let r = (x + y) / d;
    assert(q <= r <= q + a) by (nonlinear_arith)
        requires
            0 < d,
            0 <= y <= a * d,
            x == d * q + x % d,
            x + y == d * r + (x + y) % d,
            0 <= x % d < d,
            0 <= (x + y) % d < d,
    ;
}

/// What converting an amount to whole shares can lose: less than the worth
/// of one share, rounded up.
pub open spec fn rounding_loss(index: nat) -> nat {
    index / (DECIMALS as nat) + 1
}

/// Shares minted or burned for `amount` change the worth of all shares by at
/// most `amount`, and by no less than `amount` short of the rounding loss.
pub proof fn lemma_shares_worth_at_most_amount(supply: nat, index: nat, amount: nat)
    requires
        DECIMALS <= index,
    ensures
        value_of(supply, index) <= value_of(supply + shares_for(amount, index), index) <= value_of(
            supply,
            index,
        ) + amount,
        value_of(supply, index) + amount <= value_of(supply + shares_for(amount, index), index)
            + rounding_loss(index),
{
    let shares = shares_for(amount, index);
    let scale = DECIMALS as int;
    crate::lp_token::lemma_shares_le_amount(amount, index);
    assert((supply + shares) * index == supply * index + shares * index) by (nonlinear_arith);
    assert(0 <= shares * index) by (nonlinear_arith);
    lemma_quotient_step((supply * index) as int, (shares * index) as int, amount as int, scale);
    // The shares are worth more than the amount less one share.
    vstd::arithmetic::div_mod::lemma_fundamental_div_mod(amount * scale, index as int);
    vstd::arithmetic::div_mod::lemma_mod_bound(amount * scale, index as int);
    assert(shares * index + index > amount * scale) by (nonlinear_arith)
        requires
            amount * scale == index * shares + (amount * scale) % (index as int),
            (amount * scale) % (index as int) < index,
    ;
    lemma_floor_of_sum((supply * index) as int, (shares * index) as int, scale);
    let loss = rounding_loss(index) as int;
    assert(amount <= (shares * index) as int / scale + loss) by {
        vstd::arithmetic::div_mod::lemma_fundamental_div_mod((shares * index) as int, scale);
        vstd::arithmetic::div_mod::lemma_mod_bound((shares * index) as int, scale);
        vstd::arithmetic::div_mod::lemma_fundamental_div_mod(index as int, scale);
        vstd::arithmetic::div_mod::lemma_mod_bound(index as int, scale);
        let worth = (shares * index) as int / scale;
        let unit = index as int / scale;
        assert(amount <= worth + unit + 1) by (nonlinear_arith)
            requires
                shares * index + index > amount * scale,
                shares * index == scale * worth + ((shares * index) as int) % scale,
                ((shares * index) as int) % scale < scale,
                index == scale * unit + (index as int) % scale,
                (index as int) % scale < scale,
                scale > 0,
        ;
    }
}

/// Share conservation: the worth of all shares, `supply * index / DECIMALS`,
/// changes only with the assets that flow.
///
/// - Handing shares on, configuring the credit ledger, lending, taking a
///   repayment and receiving yield leave it as it is; lending and repayment
///   also leave the pool's assets as they are, since what leaves the pool's
///   account enters its loan book and back.
/// - Applying yield raises it, and no higher than the pool's assets.
/// - A deposit raises it by no more than the amount that came in, a mint by
///   no more than the amount minted for.
/// - A withdrawal, a burn and a liquidation lower it by no more than the
///   amount they are made for.
/// - In both directions the change falls short of the amount by no more than
///   the rounding loss of converting the amount to whole shares.
pub proof fn law_share_value_follows_asset_flow(pool: PoolState, token: TokenState, action: PoolAction)
    requires
        pool.valid(),
    ensures
        ({
            let next = after(pool, token, action);
            let before = pool.total_supply();
            let now = next.0.total_supply();
            match action {
                PoolAction::Transfer { .. } | PoolAction::SetCreditLedger { .. } => now == before
                    && next.1 == token,
                PoolAction::InjectYield { .. } => now == before,
                PoolAction::Borrow { to, .. } => now == before && (to != pool.address ==> assets_of(
                    next.0,
                    next.1,
                ) == assets_of(pool, token)),
                PoolAction::Repay { from, .. } => now == before && (from != pool.address
                    ==> assets_of(next.0, next.1) == assets_of(pool, token)),
                PoolAction::UpdateIndex => before <= now && (now == before || now <= assets_of(
                    pool,
                    token,
                )),
                PoolAction::Deposit { from, amount } => next != (pool, token) ==> {
                    let updated = pool.update_index(token.balances[pool.address] as int)->Ok_0;
                    &&& updated.total_supply() <= now <= updated.total_supply() + amount
                    &&& updated.total_supply() + amount <= now + rounding_loss(updated.index)
                    &&& from != pool.address ==> next.1.balances[pool.address]
                        == token.balances[pool.address] + amount
                },
                PoolAction::Mint { amount, .. } => next.0 != pool ==> before <= now <= before
                    + amount && before + amount <= now + rounding_loss(pool.index),
                PoolAction::Withdraw { from, amount, .. } => next != (pool, token) ==> {
                    &&& now <= before <= now + amount
                    &&& now + amount <= before + rounding_loss(pool.index)
                    &&& from != pool.address ==> next.1.balances[pool.address]
                        == token.balances[pool.address] - amount
                },
                PoolAction::Burn { amount, .. } => next.0 != pool ==> now <= before <= now + amount
                    && now + amount <= before + rounding_loss(pool.index),
                PoolAction::RepayWithBurn { principal, fee, .. } => next != (pool, token) ==> now
                    <= before <= now + principal + fee && now + principal + fee <= before
                    + rounding_loss(pool.index),
            }
        }),
{
    let next = after(pool, token, action);
    match action {
        PoolAction::UpdateIndex => {
            law_update_index_only_raises(pool, token.balances[pool.address] as int);
            lemma_value_rises_with_index(pool.supply, pool.index, next.0.index);
        },
        PoolAction::Deposit { from, amount } => {
            if pool.deposit(token, from, amount) is Ok {
                let updated = pool.update_index(token.balances[pool.address] as int)->Ok_0;
                lemma_index_after_yield(
                    pool.index,
                    pool.supply,
                    total_assets(token.balances[pool.address] as int, pool.borrowed),
                );
                lemma_shares_worth_at_most_amount(updated.supply, updated.index, amount as nat);
            }
        },
        PoolAction::Mint { to, amount } => {
            if pool.mint(to, amount) is Ok {
                lemma_shares_worth_at_most_amount(pool.supply, pool.index, amount as nat);
            }
        },
        PoolAction::Withdraw { from, amount, required_collateral } => {
            if pool.withdraw(token, from, amount, required_collateral) is Ok {
                lemma_burn_lowers_worth(pool, from, amount);
            }
        },
        PoolAction::Burn { from, amount, required_collateral } => {
            if pool.burn(from, amount, required_collateral) is Ok {
                lemma_burn_lowers_worth(pool, from, amount);
            }
        },
        PoolAction::RepayWithBurn { from, principal, fee } => {
            if pool.repay_with_burn(token, from, principal, fee) is Ok {
                let burned = shares_for((principal + fee) as nat, pool.index);
                assert(burned <= pool.shares[from] <= pool.supply);
                lemma_shares_worth_at_most_amount(
                    (pool.supply - burned) as nat,
                    pool.index,
                    (principal + fee) as nat,
                );
            }
        },
        _ => {},
    }
}

/// The worth of the shares does not fall when the index rises.
pub proof fn lemma_value_rises_with_index(supply: nat, index: nat, raised: nat)
    requires
        index <= raised,
    ensures
        value_of(supply, index) <= value_of(supply, raised),
{
    assert(supply * index <= supply * raised) by (nonlinear_arith)
        requires
            index <= raised,
    ;
    vstd::arithmetic::div_mod::lemma_div_is_ordered(
        (supply * index) as int,
        (supply * raised) as int,
        DECIMALS as int,
    );
}

/// Burning the shares of an amount within an account's balance lowers the
/// worth of all shares by no more than the amount.
pub proof fn lemma_burn_lowers_worth(pool: PoolState, from: Address, amount: int)
    requires
        pool.valid(),
        0 <= amount <= pool.balance(from),
    ensures
        ({
            let burned = shares_for(amount as nat, pool.index);
            &&& burned <= pool.shares[from] <= pool.supply
            &&& value_of((pool.supply - burned) as nat, pool.index) <= pool.total_supply()
                <= value_of((pool.supply - burned) as nat, pool.index) + amount
            &&& value_of((pool.supply - burned) as nat, pool.index) + amount
                <= pool.total_supply() + rounding_loss(pool.index)
        }),
{
    let burned = shares_for(amount as nat, pool.index);
    crate::lp_token::lemma_amount_within_value(amount as nat, pool.shares[from], pool.index);
    assert(pool.shares[from] <= pool.supply);
    lemma_shares_worth_at_most_amount((pool.supply - burned) as nat, pool.index, amount as nat);
}

/// The steps that the status of a bill can take: it is paid after it was
/// created, repaid after it was paid, liquidated after it was paid or overdue.
pub open spec fn may_follow(before: BillStatus, after: BillStatus) -> bool {
    ||| after == before
    ||| before == BillStatus::Created && after == BillStatus::Paid
    ||| before == BillStatus::Paid && after == BillStatus::Repaid
    ||| (before == BillStatus::Paid || before == BillStatus::Overdue) && after
        == BillStatus::Liquidated
}

/// What an operation on the bill `bill_id` may do to the bills: none is added
/// or dropped, every other bill stays as it is, and the bill itself keeps
/// parties, principal and creation time and takes the step `from` to `to`.
pub open spec fn advanced(
    before: CoreState,
    after: CoreState,
    bill_id: u64,
    from: BillStatus,
    to: BillStatus,
) -> bool {
    let bill = before.bill(bill_id);
    let next = after.bill(bill_id);
    &&& after.bills.len() == before.bills.len()
    &&& forall|other: u64|
        before.has_bill(other) && other != bill_id ==> #[trigger] after.bill(other) == before.bill(
            other,
        )
    &&& bill.status == from
    &&& next.status == to
    &&& next.id == bill.id
    &&& next.merchant == bill.merchant
    &&& next.user == bill.user
    &&& next.principal == bill.principal
    &&& next.order_id == bill.order_id
    &&& next.created_at == bill.created_at
}

/// The status of a bill only advances: paying, repaying and liquidating take
/// one bill one step along `Created`, `Paid`, `Repaid` or `Liquidated` and
/// touch no other bill; a bill that is repaid or liquidated is never changed again.
pub proof fn law_bill_status_only_advances(
    core: CoreState,
    pool: PoolState,
    token: TokenState,
    bill_id: u64,
    liquidator: Address,
    now: u64,
)
    requires
        core.valid(),
    ensures
        core.pay_bill(pool, token, bill_id, now) matches Ok(next) ==> advanced(
            core,
            next.0,
            bill_id,
            BillStatus::Created,
            BillStatus::Paid,
        ) && next.0.bill(bill_id).paid_at == now,
        core.repay_bill(pool, token, bill_id, now) matches Ok(next) ==> advanced(
            core,
            next.0,
            bill_id,
            BillStatus::Paid,
            BillStatus::Repaid,
        ),
        core.liquidate_bill(pool, token, bill_id, liquidator, now) matches Ok(next) ==> advanced(
            core,
            next.0,
            bill_id,
            core.bill(bill_id).status,
            BillStatus::Liquidated,
        ) && may_follow(core.bill(bill_id).status, BillStatus::Liquidated),
        core.has_bill(bill_id) && core.bill(bill_id).status.is_terminal() ==> {
            &&& core.pay_bill(pool, token, bill_id, now) is Err
            &&& core.repay_bill(pool, token, bill_id, now) is Err
            &&& core.liquidate_bill(pool, token, bill_id, liquidator, now) is Err
        },
{
}

/// The credit operations create and destroy nothing of the settlement asset:
/// paying, repaying and liquidating only move it between accounts. Paying and
/// repaying leave the share supply of the pool as it is, a liquidation only
/// lowers it, and none of them lowers the index.
pub proof fn law_credit_operations_conserve_the_asset(
    core: CoreState,
    pool: PoolState,
    token: TokenState,
    bill_id: u64,
    liquidator: Address,
    now: u64,
)
    requires
        core.valid(),
        pool.valid(),
    ensures
        core.pay_bill(pool, token, bill_id, now) matches Ok(next) ==> next.2.total_supply
            == token.total_supply && next.1.supply == pool.supply && pool.index <= next.1.index,
        core.repay_bill(pool, token, bill_id, now) matches Ok(next) ==> next.2.total_supply
            == token.total_supply && next.1.supply == pool.supply && pool.index <= next.1.index,
        core.liquidate_bill(pool, token, bill_id, liquidator, now) matches Ok(next)
            ==> next.2.total_supply == token.total_supply && next.1.supply <= pool.supply
            && pool.index <= next.1.index,
{
    let bill = core.bill(bill_id);
    if core.pay_bill(pool, token, bill_id, now) is Ok {
        let config = core.config->Some_0;
        let fee = crate::fees::merchant_fee(bill.principal as int);
        let (pool_next, token_a) = pool.borrow(token, core.address, bill.principal as int)->Ok_0;
        let token_b = token_a.transfer(core.address, bill.merchant, bill.principal - fee)->Ok_0;
        lemma_fee_distribution_conserves(core, config, pool_next, token_b, fee);
    }
    if core.repay_bill(pool, token, bill_id, now) is Ok {
        let config = core.config->Some_0;
        let fee = late_fee(now as int, bill.created_at as int, bill.principal as int);
        let token_a = token.transfer_from(
            core.address,
            bill.user,
            core.address,
            bill.principal + fee,
        )->Ok_0;
        let (pool_next, token_b) = pool.repay(
            token_a.approve(core.address, config.liquidity_pool, bill.principal + fee),
            core.address,
            bill.principal as int,
        )->Ok_0;
        lemma_fee_distribution_conserves(core, config, pool_next, token_b, fee);
    }
    if core.liquidate_bill(pool, token, bill_id, liquidator, now) is Ok {
        let config = core.config->Some_0;
        let fee = late_fee(now as int, bill.created_at as int, bill.principal as int);
        let penalty = crate::fees::liquidation_penalty(bill.principal as int);
        let (pool_next, token_a) = pool.repay_with_burn(
            token,
            bill.user,
            bill.principal as int,
            fee + penalty,
        )->Ok_0;
        let token_b = crate::bnpl_core::pay_if_positive(token_a, core.address, liquidator, penalty / 2)->Ok_0;
        lemma_fee_distribution_conserves(core, config, pool_next, token_b, penalty / 2 + fee);
    }
}

/// Whatever is done to the pool creates and destroys nothing of the
/// settlement asset.
pub proof fn law_pool_actions_conserve_the_asset(pool: PoolState, token: TokenState, action: PoolAction)
    ensures
        after(pool, token, action).1.total_supply == token.total_supply,
{
}

/// Splitting a fee moves the asset and may raise the index; it creates no
/// asset and no shares.
pub proof fn lemma_fee_distribution_conserves(
    core: CoreState,
    config: crate::types::Config,
    pool: PoolState,
    token: TokenState,
    amount: int,
)
    ensures
        core.distribute_fees(config, pool, token, amount) matches Ok(next) ==> next.1.total_supply
            == token.total_supply && next.0.supply == pool.supply && pool.index <= next.0.index
            && next.0.shares == pool.shares && next.0.borrowed == pool.borrowed,
{
    if core.distribute_fees(config, pool, token, amount) is Ok {
        let next = core.distribute_fees(config, pool, token, amount)->Ok_0;
        lemma_index_after_yield(
            pool.index,
            pool.supply,
            total_assets(next.1.balances[pool.address] as int, pool.borrowed),
        );
    }
}

/// The configuration is set once: a second initialization is rejected, and
/// no other operation of the credit ledger changes it or the ledger's own account.
pub proof fn law_configuration_is_set_once(
    core: CoreState,
    pool: PoolState,
    token: TokenState,
    config: crate::types::Config,
    merchant: Address,
    user: Address,
    admin: Address,
    status: crate::types::MerchantStatus,
    reference: soroban_sdk::String,
    amount: int,
    bill_id: u64,
    now: u64,
)
    ensures
        core.config is Some ==> core.initialize(config) is Err,
        core.initialize(config) matches Ok(next) ==> next.config == Some(config),
        core.enroll_merchant(merchant, reference) matches Ok(next) ==> next.config == core.config
            && next.address == core.address,
        core.update_merchant_status(admin, merchant, status) matches Ok(next) ==> next.config
            == core.config && next.address == core.address,
        core.create_bill(merchant, user, amount, reference, now) matches Ok(next) ==> next.config
            == core.config && next.address == core.address,
        core.pay_bill(pool, token, bill_id, now) matches Ok(next) ==> next.0.config == core.config
            && next.0.address == core.address,
        core.repay_bill(pool, token, bill_id, now) matches Ok(next) ==> next.0.config
            == core.config && next.0.address == core.address,
        core.liquidate_bill(pool, token, bill_id, user, now) matches Ok(next) ==> next.0.config
            == core.config && next.0.address == core.address,
{
}

} // verus!
