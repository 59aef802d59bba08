//! The pool's operations on balances that may be locked as collateral.
//!
//! What an account may withdraw, hand on or burn is its pool balance less
//! the collateral that the credit ledger requires of it. The functions here
//! ask the credit ledger for that collateral and then run the pool's
//! operation with it. While the pool has no credit ledger configured nothing
//! is asked and nothing is locked.

use crate::bnpl_core::{CoreState, UnifiedBNPLContract};
use crate::error::PoolError;
use crate::ledger::Address;
use crate::lp_token::{took_joint_step, LpToken, PoolState};
use crate::step::took_step;
use crate::usdc_token::UsdcToken;
use vstd::prelude::*;

verus! {

/// The collateral that `pool` has to keep locked for `user` at time `now`, as
/// `core` reports it.
pub open spec fn collateral_for(core: CoreState, pool: PoolState, user: Address, now: int) -> Result<
    int,
    PoolError,
> {
    if pool.bnpl_core is None {
        Ok(0)
    } else {
        match core.user_required_collateral(user, now) {
            Ok(collateral) => Ok(collateral),
            Err(e) => Err(PoolError::CreditLedger(e)),
        }
    }
}

/// The collateral that `pool` has to keep locked for `user` at time `now`.
pub fn required_collateral(core: &UnifiedBNPLContract, pool: &LpToken, user: Address, now: u64) -> (r:
    Result<i128, PoolError>)
    requires
        core.wf(),
        pool.wf(),
    ensures
        match collateral_for(core@, pool@, user, now as int) {
            Ok(collateral) => r == Ok::<i128, PoolError>(collateral as i128) && 0 <= collateral
                <= i128::MAX,
            Err(e) => r == Err::<i128, PoolError>(e),
        },
{
    if pool.get_bnpl_core().is_none() {
        return Ok(0);
    }
    match core.get_user_required_collateral(user, now) {
        Ok(collateral) => Ok(collateral),
        Err(e) => Err(PoolError::CreditLedger(e)),
    }
}

/// What is locked of `user`'s pool balance at time `now`.
pub fn get_locked_balance(core: &UnifiedBNPLContract, pool: &LpToken, user: Address, now: u64) -> (r:
    Result<i128, PoolError>)
    requires
        core.wf(),
        pool.wf(),
    ensures
        match collateral_for(core@, pool@, user, now as int) {
            Ok(collateral) => r == Ok::<i128, PoolError>(pool@.locked(collateral) as i128),
            Err(e) => r == Err::<i128, PoolError>(e),
        },
{
    match required_collateral(core, pool, user, now) {
        Ok(collateral) => Ok(pool.get_locked_balance(collateral)),
        Err(e) => Err(e),
    }
}

/// What `user` may withdraw or hand on at time `now`: its pool balance less
/// what is locked, never below zero.
pub fn available_balance(core: &UnifiedBNPLContract, pool: &LpToken, user: Address, now: u64) -> (r:
    Result<i128, PoolError>)
    requires
        core.wf(),
        pool.wf(),
    ensures
        match collateral_for(core@, pool@, user, now as int) {
            Ok(collateral) => r == Ok::<i128, PoolError>(
                pool@.available(user, collateral) as i128,
            ) && 0 <= pool@.available(user, collateral) <= pool@.balance(user),
            Err(e) => r == Err::<i128, PoolError>(e),
        },
{
    match required_collateral(core, pool, user, now) {
        Ok(collateral) => Ok(pool.available_balance(user, collateral)),
        Err(e) => Err(e),
    }
}

/// Balance, locked part and available part of `user` at time `now`.
pub fn get_balance_info(core: &UnifiedBNPLContract, pool: &LpToken, user: Address, now: u64) -> (r:
    Result<(i128, i128, i128), PoolError>)
    requires
        core.wf(),
        pool.wf(),
    ensures
        match collateral_for(core@, pool@, user, now as int) {
            Ok(collateral) => r == Ok::<(i128, i128, i128), PoolError>(
                (
                    pool@.balance(user) as i128,
                    pool@.locked(collateral) as i128,
                    pool@.available(user, collateral) as i128,
                ),
            ),
            Err(e) => r == Err::<(i128, i128, i128), PoolError>(e),
        },
{
    match required_collateral(core, pool, user, now) {
        Ok(collateral) => Ok(pool.get_balance_info(user, collateral)),
        Err(e) => Err(e),
    }
}

/// Withdraws `amount` for `from` out of what is not locked at time `now`.
pub fn withdraw(
    core: &UnifiedBNPLContract,
    pool: &mut LpToken,
    token: &mut UsdcToken,
    from: Address,
    amount: i128,
    now: u64,
) -> (r: Result<i128, PoolError>)
    requires
        core.wf(),
        old(pool).wf(),
        old(token).wf(),
    ensures
        final(pool).wf(),
        final(token).wf(),
        match collateral_for(core@, old(pool)@, from, now as int) {
            Ok(collateral) => took_joint_step(
                old(pool)@.withdraw(old(token)@, from, amount as int, collateral),
                amount,
                old(pool)@,
                final(pool)@,
                old(token)@,
                final(token)@,
                r,
            ),
            Err(e) => r == Err::<i128, PoolError>(e) && final(pool)@ == old(pool)@ && final(token)@
                == old(token)@,
        },
{
    match required_collateral(core, pool, from, now) {
        Ok(collateral) => pool.withdraw(token, from, amount, collateral),
        Err(e) => Err(e),
    }
}

/// Hands `amount` of `from`'s pool balance to `to`, out of what is not locked at time `now`.
pub fn transfer(
    core: &UnifiedBNPLContract,
    pool: &mut LpToken,
    from: Address,
    to: Address,
    amount: i128,
    now: u64,
) -> (r: Result<(), PoolError>)
    requires
        core.wf(),
        old(pool).wf(),
    ensures
        final(pool).wf(),
        match collateral_for(core@, old(pool)@, from, now as int) {
            Ok(collateral) => took_step(
                old(pool)@.transfer(from, to, amount as int, collateral),
                old(pool)@,
                final(pool)@,
                r,
            ),
            Err(e) => r == Err::<(), PoolError>(e) && final(pool)@ == old(pool)@,
        },
{
    match required_collateral(core, pool, from, now) {
        Ok(collateral) => pool.transfer(from, to, amount, collateral),
        Err(e) => Err(e),
    }
}

/// Hands `amount` of `from`'s pool balance to `to` on behalf of `spender`,
/// against its allowance and out of what is not locked at time `now`.
pub fn transfer_from(
    core: &UnifiedBNPLContract,
    pool: &mut LpToken,
    spender: Address,
    from: Address,
    to: Address,
    amount: i128,
    now: u64,
) -> (r: Result<(), PoolError>)
    requires
        core.wf(),
        old(pool).wf(),
    ensures
        final(pool).wf(),
        match collateral_for(core@, old(pool)@, from, now as int) {
            Ok(collateral) => took_step(
                old(pool)@.transfer_from(spender, from, to, amount as int, collateral),
                old(pool)@,
                final(pool)@,
                r,
            ),
            Err(e) => r == Err::<(), PoolError>(e) && final(pool)@ == old(pool)@,
        },
{
    match required_collateral(core, pool, from, now) {
        Ok(collateral) => pool.transfer_from(spender, from, to, amount, collateral),
        Err(e) => Err(e),
    }
}

/// Burns `amount` of `from`'s pool balance, out of what is not locked at time `now`.
pub fn burn(core: &UnifiedBNPLContract, pool: &mut LpToken, from: Address, amount: i128, now: u64) -> (r:
    Result<(), PoolError>)
    requires
        core.wf(),
        old(pool).wf(),
    ensures
        final(pool).wf(),
        match collateral_for(core@, old(pool)@, from, now as int) {
            Ok(collateral) => took_step(
                old(pool)@.burn(from, amount as int, collateral),
                old(pool)@,
                final(pool)@,
                r,
            ),
            Err(e) => r == Err::<(), PoolError>(e) && final(pool)@ == old(pool)@,
        },
{
    match required_collateral(core, pool, from, now) {
        Ok(collateral) => pool.burn(from, amount, collateral),
        Err(e) => Err(e),
    }
}

/// Burns `amount` of `from`'s pool balance on behalf of `spender`, against its
/// allowance and out of what is not locked at time `now`.
pub fn burn_from(
    core: &UnifiedBNPLContract,
    pool: &mut LpToken,
    spender: Address,
    from: Address,
    amount: i128,
    now: u64,
) -> (r: Result<(), PoolError>)
    requires
        core.wf(),
        old(pool).wf(),
    ensures
        final(pool).wf(),
        match collateral_for(core@, old(pool)@, from, now as int) {
            Ok(collateral) => took_step(
                old(pool)@.burn_from(spender, from, amount as int, collateral),
                old(pool)@,
                final(pool)@,
                r,
            ),
            Err(e) => r == Err::<(), PoolError>(e) && final(pool)@ == old(pool)@,
        },
{
    match required_collateral(core, pool, from, now) {
        Ok(collateral) => pool.burn_from(spender, from, amount, collateral),
        Err(e) => Err(e),
    }
}

} // verus!
