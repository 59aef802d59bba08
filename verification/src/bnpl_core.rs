//! The credit ledger: bills, their fees and interest, borrowing power and
//! liquidation.
//!
//! A merchant creates a bill for a user; the user pays it with capital
//! borrowed from the pool against its own pool balance, repays it later with
//! any late fee, or is liquidated out of its collateral. [`CoreState`] is the
//! ledger as mathematics and says for each operation which states of credit
//! ledger, pool and settlement asset follow, or which failure is reported.
//! [`UnifiedBNPLContract`] is the executable ledger; each operation is proved
//! to take that step, and to change none of the three ledgers when it fails.

use crate::error::{Error, PoolError, TokenError};
use crate::fees::{
    calc_late_fee, compute_liquidation_penalty, compute_merchant_fee, compute_required_collateral,
    fee_split, late_fee, late_fee_fits, liquidation_penalty, max_borrowing, merchant_fee,
    required_collateral, split_fee, BILL_DURATION_DAYS, COLLATERAL_RATIO, FEE_TO_INSURANCE_RATIO,
    FEE_TO_LP_RATIO, FEE_TO_TREASURY_RATIO, GRACE_PERIOD_DAYS, HEALTHY, LATE_INTEREST_APR,
    LIQUIDATION_PENALTY, LIQUIDATION_THRESHOLD_DAYS, MAX_LTV, MERCHANT_FEE_RATE, SECONDS_PER_DAY,
};
use crate::bill_ids::{copy_ids, other_than, without_id};
use crate::host::{id_at, id_count, id_list, ids_well_typed, new_id_list, push_id};
use crate::ledger::Address;
use crate::lp_token::{LpToken, PoolState};
use crate::types::{Bill, BillStatus, BorrowingPower, Config, MerchantData, MerchantStatus};
use crate::step::took_step;
use crate::usdc_token::{TokenState, UsdcToken};
use std::collections::HashMap;
use vstd::prelude::*;

verus! {

broadcast use vstd::std_specs::hash::group_hash_axioms;

/// Ledgers on which an allowance is granted until this ledger sequence number.
pub const APPROVAL_EXPIRATION: u32 = 200;

/// The failure that the credit ledger reports where the asset ledger rejects a transfer.
pub open spec fn asset_failure(e: TokenError) -> Error {
    match e {
        TokenError::AmountNotPositive => Error::InvalidAmount,
        TokenError::NotInitialized => Error::NotInitialized,
        _ => Error::InternalError,
    }
}

/// The failure that the credit ledger reports where the pool rejects an operation.
pub open spec fn pool_failure(e: PoolError) -> Error {
    match e {
        PoolError::InsufficientCollateralForLiquidation =>
            Error::InsufficientCollateralForLiquidation,
        PoolError::InvalidAmount => Error::InvalidAmount,
        PoolError::NotInitialized => Error::NotInitialized,
        PoolError::CreditLedgerNotSet => Error::NotInitialized,
        PoolError::Asset(e) => asset_failure(e),
        PoolError::CreditLedger(e) => e,
        _ => Error::InternalError,
    }
}

/// The asset ledger after `from` pays `amount` to `to`, where there is anything to pay.
pub open spec fn pay_if_positive(token: TokenState, from: Address, to: Address, amount: int) -> Result<
    TokenState,
    TokenError,
> {
    if amount > 0 {
        token.transfer(from, to, amount)
    } else {
        Ok(token)
    }
}

/// The credit ledger as mathematics.
pub struct CoreState {
    /// The account under which the credit ledger holds the settlement asset.
    pub address: Address,
    /// The identities it works with, once it is initialized.
    pub config: Option<Config>,
    /// The enrolled merchants.
    pub merchants: Map<Address, MerchantData>,
    /// All bills ever created; the bill with id `n` stands at position `n - 1`.
    pub bills: Seq<Bill>,
    /// The ids of each user's open bills, in the order in which they were paid.
    pub open_bills: Map<Address, Seq<u64>>,
}

impl CoreState {
    /// What every reachable state satisfies: bill ids are sequential from 1,
    /// principals are positive, and the open-bill lists name existing bills.
    pub open spec fn valid(self) -> bool {
        &&& self.bills.len() < u64::MAX
        &&& forall|i: int|
            0 <= i < self.bills.len() ==> (#[trigger] self.bills[i]).id == i + 1
                && self.bills[i].principal > 0
        &&& forall|u: Address, j: int|
            0 <= j < self.open_bills[u].len() ==> 1 <= #[trigger] self.open_bills[u][j]
                <= self.bills.len()
    }

    /// Whether a bill with this id exists.
    pub open spec fn has_bill(self, bill_id: u64) -> bool {
        1 <= bill_id <= self.bills.len()
    }

    /// The bill with this id.
    pub open spec fn bill(self, bill_id: u64) -> Bill {
        self.bills[bill_id - 1]
    }

    /// The id that the next bill gets.
    pub open spec fn next_bill_id(self) -> nat {
        self.bills.len() + 1
    }

    /// Accrued interest and principal of the paid bills among `ids`, or `None`
    /// where a sum leaves the signed 128-bit range. The grace period of a
    /// bill begins here when the bill was paid.
    pub open spec fn debt(self, ids: Seq<u64>, now: int) -> Option<(int, int)>
        decreases ids.len(),
    {
        if ids.len() == 0 {
            Some((0int, 0int))
        } else {
            match self.debt(ids.drop_last(), now) {
                None => None,
                Some((interest, principal)) => {
                    let bill = self.bill(ids.last());
                    if bill.status != BillStatus::Paid {
                        Some((interest, principal))
                    } else if !late_fee_fits(now, bill.paid_at as int, bill.principal as int)
                        || interest + late_fee(now, bill.paid_at as int, bill.principal as int)
                        > i128::MAX || principal + bill.principal > i128::MAX {
                        None
                    } else {
                        Some(
                            (
                                interest + late_fee(
                                    now,
                                    bill.paid_at as int,
                                    bill.principal as int,
                                ),
                                principal + bill.principal,
                            ),
                        )
                    }
                },
            }
        }
    }

    /// Accrued interest and principal of `user`'s open bills.
    pub open spec fn total_debt(self, user: Address, now: int) -> Result<(int, int), Error> {
        match self.debt(self.open_bills[user], now) {
            None => Err(Error::InternalError),
            Some(debt) => Ok(debt),
        }
    }

    /// The collateral that `user` must keep in the pool.
    pub open spec fn user_required_collateral(self, user: Address, now: int) -> Result<int, Error> {
        match self.total_debt(user, now) {
            Err(e) => Err(e),
            Ok((interest, principal)) => if principal + interest > i128::MAX || (principal
                + interest) * COLLATERAL_RATIO > i128::MAX {
                Err(Error::InternalError)
            } else {
                Ok(required_collateral(principal + interest))
            },
        }
    }

    /// What `user` may borrow, given its balance in `pool`.
    pub open spec fn borrowing_power(self, pool: PoolState, user: Address, now: int) -> Result<
        BorrowingPower,
        Error,
    > {
        if self.config is None {
            Err(Error::NotInitialized)
        } else {
            match self.total_debt(user, now) {
                Err(e) => Err(e),
                Ok((interest, principal)) => {
                    let debt = principal + interest;
                    let lp_balance = pool.balance(user) as int;
                    let limit = max_borrowing(lp_balance);
                    if debt > i128::MAX || debt * COLLATERAL_RATIO > i128::MAX {
                        Err(Error::InternalError)
                    } else {
                        Ok(
                            BorrowingPower {
                                lp_balance: lp_balance as i128,
                                max_borrowing: limit as i128,
                                current_borrowed: principal as i128,
                                current_debt: debt as i128,
                                available_borrowing: (if limit > debt {
                                    limit - debt
                                } else {
                                    0
                                }) as i128,
                                required_collateral: required_collateral(debt) as i128,
                                overall_health_factor: (if debt > 0 {
                                    limit / debt
                                } else {
                                    HEALTHY as int
                                }) as i128,
                            },
                        )
                    }
                },
            }
        }
    }

    /// The ledger with the bill `bill_id` in `status`, paid at `paid_at`.
    pub open spec fn with_bill(self, bill_id: u64, status: BillStatus, paid_at: u64) -> CoreState {
        CoreState {
            bills: self.bills.update(
                bill_id - 1,
                Bill { status, paid_at, ..self.bill(bill_id) },
            ),
            ..self
        }
    }

    /// The ledger with `bill_id` added to the open bills of `user`.
    pub open spec fn opened(self, user: Address, bill_id: u64) -> CoreState {
        CoreState {
            open_bills: self.open_bills.insert(user, self.open_bills[user].push(bill_id)),
            ..self
        }
    }

    /// The ledger with `bill_id` taken out of the open bills of `user`.
    pub open spec fn closed(self, user: Address, bill_id: u64) -> CoreState {
        CoreState {
            open_bills: self.open_bills.insert(
                user,
                self.open_bills[user].filter(other_than(bill_id)),
            ),
            ..self
        }
    }

    /// The ledger after `initialize`.
    pub open spec fn initialize(self, config: Config) -> Result<CoreState, Error> {
        if self.config is Some {
            Err(Error::AlreadyInitialized)
        } else {
            Ok(CoreState { config: Some(config), ..self })
        }
    }

    /// The ledger after `merchant` enrolls.
    pub open spec fn enroll_merchant(
        self,
        merchant: Address,
        merchant_info_id: soroban_sdk::String,
    ) -> Result<CoreState, Error> {
        if self.merchants.dom().contains(merchant) {
            Err(Error::MerchantAlreadyEnrolled)
        } else {
            Ok(
                CoreState {
                    merchants: self.merchants.insert(
                        merchant,
                        MerchantData { merchant_info_id, status: MerchantStatus::Pending },
                    ),
                    ..self
                },
            )
        }
    }

    /// The ledger after `admin` sets the status of `merchant`.
    pub open spec fn update_merchant_status(
        self,
        admin: Address,
        merchant: Address,
        new_status: MerchantStatus,
    ) -> Result<CoreState, Error> {
        if self.config is None {
            Err(Error::NotInitialized)
        } else if self.config->Some_0.admin != admin {
            Err(Error::NotAdmin)
        } else if !self.merchants.dom().contains(merchant) {
            Err(Error::MerchantNotFound)
        } else {
            Ok(
                CoreState {
                    merchants: self.merchants.insert(
                        merchant,
                        MerchantData { status: new_status, ..self.merchants[merchant] },
                    ),
                    ..self
                },
            )
        }
    }

    /// Whether `merchant` is enrolled and approved.
    pub open spec fn is_merchant_approved(self, merchant: Address) -> bool {
        self.merchants.dom().contains(merchant) && self.merchants[merchant].status
            == MerchantStatus::Approved
    }

    /// The ledger after `merchant` creates a bill over `amount` for `user` at time `now`.
    pub open spec fn create_bill(
        self,
        merchant: Address,
        user: Address,
        amount: int,
        order_id: soroban_sdk::String,
        now: u64,
    ) -> Result<CoreState, Error> {
        if !self.is_merchant_approved(merchant) {
            Err(Error::MerchantNotApproved)
        } else if amount <= 0 {
            Err(Error::InvalidAmount)
        } else if self.bills.len() + 1 >= u64::MAX || self.bills.len() >= usize::MAX {
            Err(Error::InternalError)
        } else {
            Ok(
                CoreState {
                    bills: self.bills.push(
                        Bill {
                            id: self.next_bill_id() as u64,
                            merchant,
                            user,
                            principal: amount as i128,
                            status: BillStatus::Created,
                            order_id,
                            created_at: now,
                            paid_at: 0,
                        },
                    ),
                    ..self
                },
            )
        }
    }

    /// Pool and asset ledger after a fee of `amount` that the credit ledger
    /// holds is split: treasury and insurance fund are paid their parts, the
    /// pool is paid its part as yield and applies it to its index.
    pub open spec fn distribute_fees(
        self,
        config: Config,
        pool: PoolState,
        token: TokenState,
        amount: int,
    ) -> Result<(PoolState, TokenState), Error> {
        let (to_pool, to_treasury, to_insurance) = fee_split(amount);
        if amount < 0 {
            Err(Error::InvalidAmount)
        } else if amount * FEE_TO_LP_RATIO > i128::MAX {
            Err(Error::InternalError)
        } else {
            match pay_if_positive(token, self.address, config.treasury, to_treasury) {
                Err(e) => Err(asset_failure(e)),
                Ok(token_a) => match pay_if_positive(
                    token_a,
                    self.address,
                    config.insurance_fund,
                    to_insurance,
                ) {
                    Err(e) => Err(asset_failure(e)),
                    Ok(token_b) => if to_pool <= 0 {
                        Ok((pool, token_b))
                    } else {
                        match token_b.transfer(self.address, config.liquidity_pool, to_pool) {
                            Err(e) => Err(asset_failure(e)),
                            Ok(token_c) => match pool.update_index(token_c.balances[pool.address] as int) {
                                Err(e) => Err(pool_failure(e)),
                                Ok(pool_next) => Ok((pool_next, token_c)),
                            },
                        }
                    },
                },
            }
        }
    }

    /// Pool and asset ledger after the money of a payment has moved: the
    /// credit ledger borrows `principal` from the pool, pays the merchant the
    /// principal less `fee`, and splits the fee.
    pub open spec fn payment_flow(
        self,
        config: Config,
        pool: PoolState,
        token: TokenState,
        merchant: Address,
        principal: int,
        fee: int,
    ) -> Result<(PoolState, TokenState), Error> {
        match pool.borrow(token, self.address, principal) {
            Err(e) => Err(pool_failure(e)),
            Ok((pool_next, token_a)) => match token_a.transfer(self.address, merchant, principal - fee) {
                Err(e) => Err(asset_failure(e)),
                Ok(token_b) => self.distribute_fees(config, pool_next, token_b, fee),
            },
        }
    }

    /// Pool and asset ledger after the money of a repayment has moved: the
    /// credit ledger pulls `principal + fee` from `user`, returns the
    /// principal to the pool, and splits the fee.
    pub open spec fn repayment_flow(
        self,
        config: Config,
        pool: PoolState,
        token: TokenState,
        user: Address,
        principal: int,
        fee: int,
    ) -> Result<(PoolState, TokenState), Error> {
        match token.transfer_from(self.address, user, self.address, principal + fee) {
            Err(e) => Err(asset_failure(e)),
            Ok(token_a) => match pool.repay(
                token_a.approve(self.address, config.liquidity_pool, principal + fee),
                self.address,
                principal,
            ) {
                Err(e) => Err(pool_failure(e)),
                Ok((pool_next, token_b)) => self.distribute_fees(config, pool_next, token_b, fee),
            },
        }
    }

    /// Pool and asset ledger after the money of a liquidation has moved: the
    /// pool burns `user`'s shares for principal, late fee and penalty and
    /// hands the fees to the credit ledger, which pays half the penalty to
    /// the liquidator and splits the other half and the late fee.
    pub open spec fn liquidation_flow(
        self,
        config: Config,
        pool: PoolState,
        token: TokenState,
        user: Address,
        liquidator: Address,
        principal: int,
        fee: int,
        penalty: int,
    ) -> Result<(PoolState, TokenState), Error> {
        match pool.repay_with_burn(token, user, principal, fee + penalty) {
            Err(e) => Err(pool_failure(e)),
            Ok((pool_next, token_a)) => match pay_if_positive(token_a, self.address, liquidator, penalty / 2) {
                Err(e) => Err(asset_failure(e)),
                Ok(token_b) => self.distribute_fees(config, pool_next, token_b, penalty / 2 + fee),
            },
        }
    }

    /// The three ledgers after the user of bill `bill_id` pays it at time `now`.
    pub open spec fn pay_bill(self, pool: PoolState, token: TokenState, bill_id: u64, now: u64) -> Result<
        (CoreState, PoolState, TokenState),
        Error,
    > {
        let bill = self.bill(bill_id);
        if !self.has_bill(bill_id) {
            Err(Error::BillNotFound)
        } else if bill.status != BillStatus::Created {
            Err(Error::BillNotPayable)
        } else if now > bill.created_at + BILL_DURATION_DAYS * SECONDS_PER_DAY {
            Err(Error::BillExpired)
        } else {
            match self.borrowing_power(pool, bill.user, now as int) {
                Err(e) => Err(e),
                Ok(power) => if power.available_borrowing < bill.principal {
                    Err(Error::InsufficientCollateralForLiquidation)
                } else if bill.principal * MERCHANT_FEE_RATE > i128::MAX || self.open_bills[bill.user].len()
                    >= u32::MAX {
                    Err(Error::InternalError)
                } else {
                    match self.payment_flow(
                        self.config->Some_0,
                        pool,
                        token,
                        bill.merchant,
                        bill.principal as int,
                        merchant_fee(bill.principal as int),
                    ) {
                        Err(e) => Err(e),
                        Ok((p, t)) => Ok(
                            (
                                self.with_bill(bill_id, BillStatus::Paid, now).opened(
                                    bill.user,
                                    bill_id,
                                ),
                                p,
                                t,
                            ),
                        ),
                    }
                },
            }
        }
    }

    /// The three ledgers after the user of bill `bill_id` repays it at time `now`.
    pub open spec fn repay_bill(self, pool: PoolState, token: TokenState, bill_id: u64, now: u64) -> Result<
        (CoreState, PoolState, TokenState),
        Error,
    > {
        let bill = self.bill(bill_id);
        let fee = late_fee(now as int, bill.created_at as int, bill.principal as int);
        if !self.has_bill(bill_id) {
            Err(Error::BillNotFound)
        } else if bill.status != BillStatus::Paid {
            Err(Error::BillNotPaid)
        } else if self.config is None {
            Err(Error::NotInitialized)
        } else if !late_fee_fits(now as int, bill.created_at as int, bill.principal as int)
            || bill.principal + fee > i128::MAX {
            Err(Error::InternalError)
        } else {
            match self.repayment_flow(
                self.config->Some_0,
                pool,
                token,
                bill.user,
                bill.principal as int,
                fee,
            ) {
                Err(e) => Err(e),
                Ok((p, t)) => Ok(
                    (
                        self.with_bill(bill_id, BillStatus::Repaid, bill.paid_at).closed(
                            bill.user,
                            bill_id,
                        ),
                        p,
                        t,
                    ),
                ),
            }
        }
    }

    /// What a liquidation of bill `bill_id` at time `now` burns of the user's
    /// collateral: principal, late fee and penalty.
    pub open spec fn liquidated(self, bill_id: u64, now: u64) -> i128 {
        let bill = self.bill(bill_id);
        (bill.principal + late_fee(now as int, bill.created_at as int, bill.principal as int)
            + liquidation_penalty(bill.principal as int)) as i128
    }

    /// The three ledgers after `liquidator` liquidates bill `bill_id` at time `now`.
    pub open spec fn liquidate_bill(
        self,
        pool: PoolState,
        token: TokenState,
        bill_id: u64,
        liquidator: Address,
        now: u64,
    ) -> Result<(CoreState, PoolState, TokenState), Error> {
        let bill = self.bill(bill_id);
        let fee = late_fee(now as int, bill.created_at as int, bill.principal as int);
        let penalty = liquidation_penalty(bill.principal as int);
        if self.config is None {
            Err(Error::NotInitialized)
        } else if pool.balance(liquidator) == 0 {
            Err(Error::NonLpTokenHolder)
        } else if !self.has_bill(bill_id) {
            Err(Error::BillNotFound)
        } else if now < bill.created_at + LIQUIDATION_THRESHOLD_DAYS * SECONDS_PER_DAY {
            Err(Error::GracePeriodNotExpired)
        } else if !(bill.status == BillStatus::Paid || bill.status == BillStatus::Overdue) {
            Err(Error::LiquidationNotPossible)
        } else if !late_fee_fits(now as int, bill.created_at as int, bill.principal as int)
            || bill.principal * LIQUIDATION_PENALTY > i128::MAX || fee + penalty > i128::MAX {
            Err(Error::InternalError)
        } else {
            match self.liquidation_flow(
                self.config->Some_0,
                pool,
                token,
                bill.user,
                liquidator,
                bill.principal as int,
                fee,
                penalty,
            ) {
                Err(e) => Err(e),
                Ok((p, t)) => Ok(
                    (
                        self.with_bill(bill_id, BillStatus::Liquidated, bill.paid_at).closed(
                            bill.user,
                            bill_id,
                        ),
                        p,
                        t,
                    ),
                ),
            }
        }
    }
}

/// Whether an operation on the three ledgers that reports `r` took the step
/// `outcome`: the new states and the value on success, no change on failure.
pub open spec fn took_credit_step<T>(
    outcome: Result<(CoreState, PoolState, TokenState), Error>,
    value: T,
    core_before: CoreState,
    core_after: CoreState,
    pool_before: PoolState,
    pool_after: PoolState,
    token_before: TokenState,
    token_after: TokenState,
    r: Result<T, Error>,
) -> bool {
    match outcome {
        Ok((core, pool, token)) => r == Ok::<T, Error>(value) && core_after == core && pool_after
            == pool && token_after == token,
        Err(e) => r == Err::<T, Error>(e) && core_after == core_before && pool_after
            == pool_before && token_after == token_before,
    }
}

/// The rates and periods that callers display.
#[derive(Clone, Copy, Debug, PartialEq, Eq, Structural)]
pub struct ProtocolConstants {
    pub merchant_fee_rate: i128,
    pub late_interest_apr: i128,
    pub max_ltv: i128,
    pub collateral_ratio: i128,
    pub grace_period_days: i128,
    pub fee_to_lp_ratio: i128,
    pub fee_to_treasury_ratio: i128,
    pub fee_to_insurance_ratio: i128,
}

/// The failure that the credit ledger reports where the asset ledger rejects a transfer.
pub fn asset_error(e: TokenError) -> (r: Error)
    ensures
        r == asset_failure(e),
{
    match e {
        TokenError::AmountNotPositive => Error::InvalidAmount,
        TokenError::NotInitialized => Error::NotInitialized,
        _ => Error::InternalError,
    }
}

/// The failure that the credit ledger reports where the pool rejects an operation.
pub fn pool_error(e: PoolError) -> (r: Error)
    ensures
        r == pool_failure(e),
{
    match e {
        PoolError::InsufficientCollateralForLiquidation =>
            Error::InsufficientCollateralForLiquidation,
        PoolError::InvalidAmount => Error::InvalidAmount,
        PoolError::NotInitialized => Error::NotInitialized,
        PoolError::CreditLedgerNotSet => Error::NotInitialized,
        PoolError::Asset(e) => asset_error(e),
        PoolError::CreditLedger(e) => e,
        _ => Error::InternalError,
    }
}

/// Once a sum of debt has left the range over some of the bills, it has left
/// it over all of them.
pub proof fn lemma_debt_overflow_persists(core: CoreState, ids: Seq<u64>, k: int, now: int)
    requires
        0 <= k <= ids.len(),
        core.debt(ids.subrange(0, k), now) is None,
    ensures
        core.debt(ids, now) is None,
    decreases ids.len() - k,
{
    if k == ids.len() {
        assert(ids.subrange(0, k) =~= ids);
    } else {
        assert(ids.drop_last().subrange(0, k) =~= ids.subrange(0, k));
        lemma_debt_overflow_persists(core, ids.drop_last(), k, now);
    }
}

/// The executable credit ledger.
pub struct UnifiedBNPLContract {
    address: Address,
    config: Option<Config>,
    merchants: HashMap<Address, MerchantData>,
    bills: Vec<Bill>,
    user_bills: HashMap<Address, soroban_sdk::Vec<u64>>,
}

impl View for UnifiedBNPLContract {
    type V = CoreState;

    closed spec fn view(&self) -> CoreState {
        CoreState {
            address: self.address,
            config: self.config,
            merchants: self.merchants@,
            bills: self.bills@,
            open_bills: Map::total(
                |u: Address|
                    if self.user_bills@.dom().contains(u) {
                        id_list(self.user_bills@[u])
                    } else {
                        Seq::<u64>::empty()
                    },
            ),
        }
    }
}

impl UnifiedBNPLContract {
    /// Whether the open-bill lists hold nothing but bill ids.
    pub closed spec fn lists_well_typed(&self) -> bool {
        forall|u: Address|
            self.user_bills@.dom().contains(u) ==> ids_well_typed(#[trigger] self.user_bills@[u])
    }

    /// The invariant of the ledger: its state is valid, and the open-bill
    /// lists hold nothing but bill ids.
    pub open spec fn wf(&self) -> bool {
        self@.valid() && self.lists_well_typed()
    }

    /// A ledger that is not initialized, holding the asset under `address`.
    pub fn new(address: Address) -> (c: UnifiedBNPLContract)
        ensures
            c.wf(),
            c@ == (CoreState {
                address,
                config: None,
                merchants: Map::empty(),
                bills: Seq::empty(),
                open_bills: Map::total(|u: Address| Seq::<u64>::empty()),
            }),
    {
        let c = UnifiedBNPLContract {
            address,
            config: None,
            merchants: HashMap::new(),
            bills: Vec::new(),
            user_bills: HashMap::new(),
        };
        assert(c@.merchants =~= Map::empty());
        assert(c@.bills =~= Seq::empty());
        assert(c@.open_bills =~= Map::total(|u: Address| Seq::<u64>::empty()));
        c
    }

    /// The account under which the ledger holds the settlement asset.
    pub fn address(&self) -> (a: Address)
        ensures
            a == self@.address,
    {
        self.address
    }

    /// Fixes the identities the ledger works with; once only.
    pub fn initialize(
        &mut self,
        liquidity_pool: Address,
        usdc_token: Address,
        admin: Address,
        treasury: Address,
        insurance_fund: Address,
    ) -> (r: Result<(), Error>)
        requires
            old(self).wf(),
        ensures
            final(self).wf(),
            took_step(
                old(self)@.initialize(
                    (Config { admin, liquidity_pool, usdc_token, treasury, insurance_fund }),
                ),
                old(self)@,
                final(self)@,
                r,
            ),
    {
        if self.config.is_some() {
            return Err(Error::AlreadyInitialized);
        }
        self.config = Some(Config { admin, liquidity_pool, usdc_token, treasury, insurance_fund });
        assert(self@ =~= old(self)@.initialize(
            (Config { admin, liquidity_pool, usdc_token, treasury, insurance_fund }),
        )->Ok_0);
        Ok(())
    }

    /// Whether the ledger is initialized.
    pub fn has_config(&self) -> (initialized: bool)
        ensures
            initialized == (self@.config is Some),
    {
        self.config.is_some()
    }

    /// The identities the ledger works with.
    pub fn get_config(&self) -> (r: Result<Config, Error>)
        ensures
            r == match self@.config {
                Some(config) => Ok::<Config, Error>(config),
                None => Err::<Config, Error>(Error::NotInitialized),
            },
    {
        match self.config {
            Some(config) => Ok(config),
            None => Err(Error::NotInitialized),
        }
    }

    /// Whether `address` is the administrator.
    pub fn is_admin(&self, address: Address) -> (r: Result<bool, Error>)
        ensures
            r == match self@.config {
                Some(config) => Ok::<bool, Error>(config.admin == address),
                None => Err::<bool, Error>(Error::NotInitialized),
            },
    {
        match self.config {
            Some(config) => Ok(config.admin == address),
            None => Err(Error::NotInitialized),
        }
    }

    /// Enrolls `merchant` with a reference to its profile; it then waits for approval.
    pub fn enroll_merchant(&mut self, merchant: Address, merchant_info_id: soroban_sdk::String) -> (r:
        Result<(), Error>)
        requires
            old(self).wf(),
        ensures
            final(self).wf(),
            took_step(
                old(self)@.enroll_merchant(merchant, merchant_info_id),
                old(self)@,
                final(self)@,
                r,
            ),
    {
        if self.merchants.contains_key(&merchant) {
            return Err(Error::MerchantAlreadyEnrolled);
        }
        self.merchants.insert(
            merchant,
            MerchantData { merchant_info_id, status: MerchantStatus::Pending },
        );
        assert(self@ =~= old(self)@.enroll_merchant(merchant, merchant_info_id)->Ok_0);
        Ok(())
    }

    /// Sets the status of `merchant`; for the administrator.
    pub fn update_merchant_status(&mut self, admin: Address, merchant: Address, new_status: MerchantStatus) -> (r:
        Result<(), Error>)
        requires
            old(self).wf(),
        ensures
            final(self).wf(),
            took_step(
                old(self)@.update_merchant_status(admin, merchant, new_status),
                old(self)@,
                final(self)@,
                r,
            ),
    {
        match self.config {
            None => {
                return Err(Error::NotInitialized);
            },
            Some(config) => {
                if config.admin != admin {
                    return Err(Error::NotAdmin);
                }
            },
        }
        match self.merchants.remove(&merchant) {
            None => {
                assert(self@.merchants =~= old(self)@.merchants);
                assert(self@.open_bills =~= old(self)@.open_bills);
                Err(Error::MerchantNotFound)
            },
            Some(data) => {
                self.merchants.insert(
                    merchant,
                    MerchantData { merchant_info_id: data.merchant_info_id, status: new_status },
                );
                assert(self@.merchants =~= old(self)@.merchants.insert(
                    merchant,
                    MerchantData { status: new_status, ..old(self)@.merchants[merchant] },
                ));
                assert(self@.open_bills =~= old(self)@.open_bills);
                Ok(())
            },
        }
    }

    /// What the ledger records of `merchant`.
    pub fn get_merchant(&self, merchant: Address) -> (r: Result<&MerchantData, Error>)
        ensures
            r == (if self@.merchants.dom().contains(merchant) {
                Ok::<&MerchantData, Error>(&self@.merchants[merchant])
            } else {
                Err::<&MerchantData, Error>(Error::MerchantNotFound)
            }),
    {
        match self.merchants.get(&merchant) {
            Some(data) => Ok(data),
            None => Err(Error::MerchantNotFound),
        }
    }

    /// Whether `merchant` is enrolled and approved.
    pub fn is_merchant_approved(&self, merchant: Address) -> (approved: bool)
        ensures
            approved == self@.is_merchant_approved(merchant),
    {
        match self.merchants.get(&merchant) {
            Some(data) => data.status == MerchantStatus::Approved,
            None => false,
        }
    }

    /// The id that the next bill gets.
    pub fn get_bill_counter(&self) -> (id: u64)
        requires
            self.wf(),
        ensures
            id == self@.next_bill_id(),
    {
        self.bills.len() as u64 + 1
    }

    /// Whether a bill with this id exists.
    pub fn has_bill(&self, bill_id: u64) -> (found: bool)
        ensures
            found == self@.has_bill(bill_id),
    {
        1 <= bill_id && bill_id - 1 < self.bills.len() as u64
    }

    /// The bill with this id.
    pub fn get_bill(&self, bill_id: u64) -> (r: Result<&Bill, Error>)
        ensures
            r == (if self@.has_bill(bill_id) {
                Ok::<&Bill, Error>(&self@.bill(bill_id))
            } else {
                Err::<&Bill, Error>(Error::BillNotFound)
            }),
    {
        if self.has_bill(bill_id) {
            assert(self@.bills.len() == self.bills.len());
            Ok(&self.bills[(bill_id - 1) as usize])
        } else {
            Err(Error::BillNotFound)
        }
    }

    /// Creates a bill over `amount` that `user` owes for an order of
    /// `merchant`. Returns the bill's id.
    pub fn create_bill(
        &mut self,
        merchant: Address,
        user: Address,
        amount: i128,
        order_id: soroban_sdk::String,
        now: u64,
    ) -> (r: Result<u64, Error>)
        requires
            old(self).wf(),
        ensures
            final(self).wf(),
            match old(self)@.create_bill(merchant, user, amount as int, order_id, now) {
                Ok(core) => r == Ok::<u64, Error>(old(self)@.next_bill_id() as u64)
                    && final(self)@ == core,
                Err(e) => r == Err::<u64, Error>(e) && final(self)@ == old(self)@,
            },
    {
        if !self.is_merchant_approved(merchant) {
            return Err(Error::MerchantNotApproved);
        }
        if amount <= 0 {
            return Err(Error::InvalidAmount);
        }
        let count = self.bills.len();
        if count >= usize::MAX || count as u64 >= u64::MAX - 1 {
            return Err(Error::InternalError);
        }
        let bill_id = count as u64 + 1;
        self.bills.push(
            Bill {
                id: bill_id,
                merchant,
                user,
                principal: amount,
                status: BillStatus::Created,
                order_id,
                created_at: now,
                paid_at: 0,
            },
        );
        assert(self@ =~= old(self)@.create_bill(merchant, user, amount as int, order_id, now)->Ok_0);
        Ok(bill_id)
    }

    /// The ids of `user`'s open bills, in the order in which they were paid.
    pub fn get_user_bills(&self, env: &soroban_sdk::Env, user: Address) -> (ids: soroban_sdk::Vec<u64>)
        requires
            self.wf(),
        ensures
            id_list(ids) == self@.open_bills[user],
            ids_well_typed(ids),
    {
        match self.user_bills.get(&user) {
            None => new_id_list(env),
            Some(list) => copy_ids(env, list),
        }
    }

    /// Accrued interest and principal of `user`'s open bills at time `now`.
    /// In this report the grace period of a bill begins when the bill was
    /// paid; repayment and liquidation count it from the bill's creation.
    pub fn get_user_total_debt(&self, user: Address, now: u64) -> (r: Result<(i128, i128), Error>)
        requires
            self.wf(),
        ensures
            match self@.total_debt(user, now as int) {
                Ok((interest, principal)) => r == Ok::<(i128, i128), Error>(
                    (interest as i128, principal as i128),
                ) && 0 <= interest <= i128::MAX && 0 <= principal <= i128::MAX,
                Err(e) => r == Err::<(i128, i128), Error>(e),
            },
    {
        let list = match self.user_bills.get(&user) {
            Some(list) => list,
            None => {
                return Ok((0, 0));
            },
        };
        let n = id_count(list);
        let ghost ids = id_list(*list);
        let mut interest: i128 = 0;
        let mut principal: i128 = 0;
        let mut i: u32 = 0;
        proof {
            assert(ids.subrange(0, 0) =~= Seq::<u64>::empty());
        }
        while i < n
            invariant
                i <= n,
                n == ids.len(),
                ids == id_list(*list),
                ids == self@.open_bills[user],
                ids_well_typed(*list),
                self.wf(),
                0 <= interest,
                0 <= principal,
                self@.debt(ids.subrange(0, i as int), now as int) == Some(
                    (interest as int, principal as int),
                ),
            decreases n - i,
        {
            let item = id_at(list, i);
            let ghost next = ids.subrange(0, i + 1);
            proof {
                assert(next.drop_last() =~= ids.subrange(0, i as int));
                assert(next.last() == ids[i as int]);
                assert(1 <= self@.open_bills[user][i as int] <= self@.bills.len());
                assert(self@.bills.len() == self.bills.len());
            }
            let bill_id = match item {
                Some(bill_id) => bill_id,
                None => {
                    return Err(Error::InternalError);
                },
            };
            let bill = &self.bills[(bill_id - 1) as usize];
            if bill.status == BillStatus::Paid {
                let fee = match calc_late_fee(now, bill.paid_at, bill.principal) {
                    Ok(fee) => fee,
                    Err(_) => {
                        proof {
                            lemma_debt_overflow_persists(self@, ids, i + 1, now as int);
                        }
                        return Err(Error::InternalError);
                    },
                };
                match (interest.checked_add(fee), principal.checked_add(bill.principal)) {
                    (Some(sum_interest), Some(sum_principal)) => {
                        interest = sum_interest;
                        principal = sum_principal;
                    },
                    _ => {
                        proof {
                            lemma_debt_overflow_persists(self@, ids, i + 1, now as int);
                        }
                        return Err(Error::InternalError);
                    },
                }
            }
            i += 1;
        }
        proof {
            assert(ids.subrange(0, n as int) =~= ids);
        }
        Ok((interest, principal))
    }

    /// The collateral that `user` must keep in the pool at time `now`: 111% of its debt.
    pub fn get_user_required_collateral(&self, user: Address, now: u64) -> (r: Result<i128, Error>)
        requires
            self.wf(),
        ensures
            match self@.user_required_collateral(user, now as int) {
                Ok(collateral) => r == Ok::<i128, Error>(collateral as i128) && 0 <= collateral
                    <= i128::MAX,
                Err(e) => r == Err::<i128, Error>(e),
            },
    {
        let (interest, principal) = match self.get_user_total_debt(user, now) {
            Ok(debt) => debt,
            Err(e) => {
                return Err(e);
            },
        };
        match principal.checked_add(interest) {
            None => Err(Error::InternalError),
            Some(debt) => compute_required_collateral(debt),
        }
    }

    /// What `user` may borrow at time `now`, given its balance in `pool`.
    pub fn get_user_borrowing_power(&self, pool: &LpToken, user: Address, now: u64) -> (r: Result<
        BorrowingPower,
        Error,
    >)
        requires
            self.wf(),
            pool.wf(),
        ensures
            r == self@.borrowing_power(pool@, user, now as int),
            r matches Ok(power) ==> 0 <= power.available_borrowing <= power.max_borrowing
                <= power.lp_balance && 0 <= power.current_debt,
    {
        if self.config.is_none() {
            return Err(Error::NotInitialized);
        }
        let (interest, principal) = match self.get_user_total_debt(user, now) {
            Ok(debt) => debt,
            Err(e) => {
                return Err(e);
            },
        };
        let debt = match principal.checked_add(interest) {
            Some(debt) => debt,
            None => {
                return Err(Error::InternalError);
            },
        };
        let collateral = match compute_required_collateral(debt) {
            Ok(collateral) => collateral,
            Err(e) => {
                return Err(e);
            },
        };
        let lp_balance = pool.balance(user);
        proof {
            pool.lemma_balance_bound(user);
        }
        let limit = lp_balance * 90 / 100;
        let available = if limit > debt {
            limit - debt
        } else {
            0
        };
        let health = if debt > 0 {
            limit / debt
        } else {
            HEALTHY
        };
        Ok(
            BorrowingPower {
                lp_balance,
                max_borrowing: limit,
                current_borrowed: principal,
                current_debt: debt,
                available_borrowing: available,
                required_collateral: collateral,
                overall_health_factor: health,
            },
        )
    }

    /// Records the bill `bill_id` as `status`, paid at `paid_at`.
    fn mark_bill(&mut self, bill_id: u64, status: BillStatus, paid_at: u64)
        requires
            old(self).wf(),
            old(self)@.has_bill(bill_id),
        ensures
            final(self).wf(),
            final(self)@ == old(self)@.with_bill(bill_id, status, paid_at),
    {
        assert(self@.bills.len() == self.bills.len());
        let idx = (bill_id - 1) as usize;
        let bill = &self.bills[idx];
        let updated = Bill {
            id: bill.id,
            merchant: bill.merchant,
            user: bill.user,
            principal: bill.principal,
            status,
            order_id: bill.order_id.clone(),
            created_at: bill.created_at,
            paid_at,
        };
        self.bills.set(idx, updated);
        proof {
            assert(self@.bills =~= old(self)@.with_bill(bill_id, status, paid_at).bills);
            assert(self@.open_bills =~= old(self)@.open_bills);
        }
    }

    /// Adds `bill_id` to the open bills of `user`.
    fn open_bill(&mut self, env: &soroban_sdk::Env, user: Address, bill_id: u64)
        requires
            old(self).wf(),
            old(self)@.has_bill(bill_id),
            old(self)@.open_bills[user].len() < u32::MAX,
        ensures
            final(self).wf(),
            final(self)@ == old(self)@.opened(user, bill_id),
    {
        let mut list = match self.user_bills.remove(&user) {
            Some(list) => list,
            None => new_id_list(env),
        };
        assert(id_list(list) == old(self)@.open_bills[user]);
        push_id(&mut list, bill_id);
        self.user_bills.insert(user, list);
        proof {
            assert(self@.open_bills =~= old(self)@.opened(user, bill_id).open_bills);
            assert forall|u: Address, j: int| 0 <= j < self@.open_bills[u].len() implies 1
                <= #[trigger] self@.open_bills[u][j] <= self@.bills.len() by {
                if u == user && j < old(self)@.open_bills[user].len() {
                    assert(self@.open_bills[u][j] == old(self)@.open_bills[u][j]);
                } else if u != user {
                    assert(self@.open_bills[u][j] == old(self)@.open_bills[u][j]);
                }
            }
        }
    }

    /// Takes `bill_id` out of the open bills of `user`.
    fn close_bill(&mut self, env: &soroban_sdk::Env, user: Address, bill_id: u64)
        requires
            old(self).wf(),
        ensures
            final(self).wf(),
            final(self)@ == old(self)@.closed(user, bill_id),
    {
        let ghost keep = other_than(bill_id);
        let ghost before = self@.open_bills[user];
        let remaining = match self.user_bills.get(&user) {
            Some(list) => without_id(env, list, bill_id),
            None => {
                proof {
                    reveal(Seq::filter);
                    assert(before.filter(keep) =~= before);
                    assert(self@.open_bills =~= old(self)@.closed(user, bill_id).open_bills);
                }
                return ;
            },
        };
        self.user_bills.insert(user, remaining);
        proof {
            assert(self@.open_bills =~= old(self)@.closed(user, bill_id).open_bills);
            assert forall|u: Address, j: int| 0 <= j < self@.open_bills[u].len() implies 1
                <= #[trigger] self@.open_bills[u][j] <= self@.bills.len() by {
                if u == user {
                    let id = before.filter(keep)[j];
                    assert(before.filter(keep).contains(id));
                    before.lemma_filter_contains_rev(keep, id);
                    let k = choose|k: int| 0 <= k < before.len() && before[k] == id;
                    assert(1 <= old(self)@.open_bills[user][k] <= old(self)@.bills.len());
                } else {
                    assert(self@.open_bills[u][j] == old(self)@.open_bills[u][j]);
                }
            }
        }
    }

    /// Pays `amount` of what the ledger holds to `to`, where there is anything to pay.
    fn pay_out(&self, token: &mut UsdcToken, to: Address, amount: i128) -> (r: Result<(), Error>)
        requires
            old(token).wf(),
        ensures
            final(token).wf(),
            match pay_if_positive(old(token)@, self@.address, to, amount as int) {
                Ok(t) => r is Ok && final(token)@ == t,
                Err(e) => r == Err::<(), Error>(asset_failure(e)),
            },
    {
        if amount > 0 {
            match token.transfer(self.address, to, amount) {
                Ok(()) => Ok(()),
                Err(e) => Err(asset_error(e)),
            }
        } else {
            Ok(())
        }
    }

    /// Splits a fee of `amount` that the ledger holds: 20% to the treasury,
    /// 10% to the insurance fund, 70% to the pool as yield, which the pool
    /// applies to its index. On failure pool and asset ledger may have
    /// changed; the caller restores them.
    fn distribute_fees(&self, config: &Config, pool: &mut LpToken, token: &mut UsdcToken, amount: i128) -> (r:
        Result<(), Error>)
        requires
            old(pool).wf(),
            old(token).wf(),
        ensures
            final(pool).wf(),
            final(token).wf(),
            match self@.distribute_fees(*config, old(pool)@, old(token)@, amount as int) {
                Ok((p, t)) => r is Ok && final(pool)@ == p && final(token)@ == t,
                Err(e) => r == Err::<(), Error>(e),
            },
    {
        let split = match split_fee(amount) {
            Ok(split) => split,
            Err(e) => {
                return Err(e);
            },
        };
        if let Err(e) = self.pay_out(token, config.treasury, split.treasury) {
            return Err(e);
        }
        if let Err(e) = self.pay_out(token, config.insurance_fund, split.insurance) {
            return Err(e);
        }
        if split.pool > 0 {
            if let Err(e) = token.transfer(self.address, config.liquidity_pool, split.pool) {
                return Err(asset_error(e));
            }
            if let Err(e) = pool.update_index(token) {
                return Err(pool_error(e));
            }
        }
        Ok(())
    }

    /// Moves the money of a payment. On failure pool and asset ledger may
    /// have changed; the caller restores them.
    fn payment_flow(
        &self,
        config: &Config,
        pool: &mut LpToken,
        token: &mut UsdcToken,
        merchant: Address,
        principal: i128,
        fee: i128,
    ) -> (r: Result<(), Error>)
        requires
            old(pool).wf(),
            old(token).wf(),
            0 <= fee <= principal,
        ensures
            final(pool).wf(),
            final(token).wf(),
            match self@.payment_flow(
                *config,
                old(pool)@,
                old(token)@,
                merchant,
                principal as int,
                fee as int,
            ) {
                Ok((p, t)) => r is Ok && final(pool)@ == p && final(token)@ == t,
                Err(e) => r == Err::<(), Error>(e),
            },
    {
        if let Err(e) = pool.borrow(token, self.address, principal) {
            return Err(pool_error(e));
        }
        if let Err(e) = token.transfer(self.address, merchant, principal - fee) {
            return Err(asset_error(e));
        }
        self.distribute_fees(config, pool, token, fee)
    }

    /// Moves the money of a repayment. On failure pool and asset ledger may
    /// have changed; the caller restores them.
    fn repayment_flow(
        &self,
        config: &Config,
        pool: &mut LpToken,
        token: &mut UsdcToken,
        user: Address,
        principal: i128,
        fee: i128,
    ) -> (r: Result<(), Error>)
        requires
            old(pool).wf(),
            old(token).wf(),
            0 <= fee,
            0 <= principal,
            principal + fee <= i128::MAX,
        ensures
            final(pool).wf(),
            final(token).wf(),
            match self@.repayment_flow(
                *config,
                old(pool)@,
                old(token)@,
                user,
                principal as int,
                fee as int,
            ) {
                Ok((p, t)) => r is Ok && final(pool)@ == p && final(token)@ == t,
                Err(e) => r == Err::<(), Error>(e),
            },
    {
        let total = principal + fee;
        if let Err(e) = token.transfer_from(self.address, user, self.address, total) {
            return Err(asset_error(e));
        }
        token.approve(self.address, config.liquidity_pool, total, APPROVAL_EXPIRATION);
        if let Err(e) = pool.repay(token, self.address, principal) {
            return Err(pool_error(e));
        }
        self.distribute_fees(config, pool, token, fee)
    }

    /// Moves the money of a liquidation. On failure pool and asset ledger may
    /// have changed; the caller restores them.
    fn liquidation_flow(
        &self,
        config: &Config,
        pool: &mut LpToken,
        token: &mut UsdcToken,
        user: Address,
        liquidator: Address,
        principal: i128,
        fee: i128,
        penalty: i128,
    ) -> (r: Result<(), Error>)
        requires
            old(pool).wf(),
            old(token).wf(),
            0 <= fee,
            0 <= penalty,
            fee + penalty <= i128::MAX,
        ensures
            final(pool).wf(),
            final(token).wf(),
            match self@.liquidation_flow(
                *config,
                old(pool)@,
                old(token)@,
                user,
                liquidator,
                principal as int,
                fee as int,
                penalty as int,
            ) {
                Ok((p, t)) => r is Ok && final(pool)@ == p && final(token)@ == t,
                Err(e) => r == Err::<(), Error>(e),
            },
    {
        if let Err(e) = pool.repay_with_burn(token, user, principal, fee + penalty) {
            return Err(pool_error(e));
        }
        let reward = penalty / 2;
        if let Err(e) = self.pay_out(token, liquidator, reward) {
            return Err(e);
        }
        self.distribute_fees(config, pool, token, reward + fee)
    }

    /// Pays bill `bill_id` on credit: borrows the principal from the pool
    /// against the user's pool balance, pays the merchant the principal less
    /// the merchant fee, splits the fee, and opens the bill as debt of the user.
    pub fn pay_bill_bnpl(
        &mut self,
        env: &soroban_sdk::Env,
        pool: &mut LpToken,
        token: &mut UsdcToken,
        bill_id: u64,
        now: u64,
    ) -> (r: Result<(), Error>)
        requires
            old(self).wf(),
            old(pool).wf(),
            old(token).wf(),
        ensures
            final(self).wf(),
            final(pool).wf(),
            final(token).wf(),
            took_credit_step(
                old(self)@.pay_bill(old(pool)@, old(token)@, bill_id, now),
                (),
                old(self)@,
                final(self)@,
                old(pool)@,
                final(pool)@,
                old(token)@,
                final(token)@,
                r,
            ),
    {
        if !self.has_bill(bill_id) {
            return Err(Error::BillNotFound);
        }
        assert(self@.bills.len() == self.bills.len());
        let bill = &self.bills[(bill_id - 1) as usize];
        let merchant = bill.merchant;
        let user = bill.user;
        let principal = bill.principal;
        if bill.status != BillStatus::Created {
            return Err(Error::BillNotPayable);
        }
        if now > bill.created_at && now - bill.created_at > BILL_DURATION_DAYS * SECONDS_PER_DAY {
            return Err(Error::BillExpired);
        }
        let power = match self.get_user_borrowing_power(pool, user, now) {
            Ok(power) => power,
            Err(e) => {
                return Err(e);
            },
        };
        if power.available_borrowing < principal {
            return Err(Error::InsufficientCollateralForLiquidation);
        }
        let fee = match compute_merchant_fee(principal) {
            Ok(fee) => fee,
            Err(_) => {
                return Err(Error::InternalError);
            },
        };
        let open_count = match self.user_bills.get(&user) {
            Some(list) => id_count(list),
            None => 0,
        };
        if open_count == u32::MAX {
            return Err(Error::InternalError);
        }
        let config = match self.config {
            Some(config) => config,
            None => {
                return Err(Error::NotInitialized);
            },
        };
        let pool_before = pool.duplicate();
        let token_before = token.duplicate();
        if let Err(e) = self.payment_flow(&config, pool, token, merchant, principal, fee) {
            *pool = pool_before;
            *token = token_before;
            return Err(e);
        }
        self.mark_bill(bill_id, BillStatus::Paid, now);
        self.open_bill(env, user, bill_id);
        Ok(())
    }

    /// Repays bill `bill_id`: pulls principal and late fee from the user,
    /// returns the principal to the pool, splits the late fee, and closes the
    /// bill. The late fee counts from the bill's creation.
    pub fn repay_bill(
        &mut self,
        env: &soroban_sdk::Env,
        pool: &mut LpToken,
        token: &mut UsdcToken,
        bill_id: u64,
        now: u64,
    ) -> (r: Result<(), Error>)
        requires
            old(self).wf(),
            old(pool).wf(),
            old(token).wf(),
        ensures
            final(self).wf(),
            final(pool).wf(),
            final(token).wf(),
            took_credit_step(
                old(self)@.repay_bill(old(pool)@, old(token)@, bill_id, now),
                (),
                old(self)@,
                final(self)@,
                old(pool)@,
                final(pool)@,
                old(token)@,
                final(token)@,
                r,
            ),
    {
        if !self.has_bill(bill_id) {
            return Err(Error::BillNotFound);
        }
        assert(self@.bills.len() == self.bills.len());
        let bill = &self.bills[(bill_id - 1) as usize];
        let user = bill.user;
        let principal = bill.principal;
        let paid_at = bill.paid_at;
        if bill.status != BillStatus::Paid {
            return Err(Error::BillNotPaid);
        }
        let config = match self.config {
            Some(config) => config,
            None => {
                return Err(Error::NotInitialized);
            },
        };
        let fee = match calc_late_fee(now, bill.created_at, principal) {
            Ok(fee) => fee,
            Err(_) => {
                return Err(Error::InternalError);
            },
        };
        if fee > i128::MAX - principal {
            return Err(Error::InternalError);
        }
        let pool_before = pool.duplicate();
        let token_before = token.duplicate();
        if let Err(e) = self.repayment_flow(&config, pool, token, user, principal, fee) {
            *pool = pool_before;
            *token = token_before;
            return Err(e);
        }
        self.mark_bill(bill_id, BillStatus::Repaid, paid_at);
        self.close_bill(env, user, bill_id);
        Ok(())
    }

    /// Liquidates bill `bill_id` once the liquidation threshold has passed:
    /// the pool burns the user's shares for principal, late fee and penalty,
    /// `liquidator`, who must hold pool shares, receives half the penalty,
    /// the rest is split, and the bill is closed. Threshold and late fee
    /// count from the bill's creation. Returns the value burned.
    pub fn liquidate_bill(
        &mut self,
        env: &soroban_sdk::Env,
        pool: &mut LpToken,
        token: &mut UsdcToken,
        bill_id: u64,
        liquidator: Address,
        now: u64,
    ) -> (r: Result<i128, Error>)
        requires
            old(self).wf(),
            old(pool).wf(),
            old(token).wf(),
        ensures
            final(self).wf(),
            final(pool).wf(),
            final(token).wf(),
            took_credit_step(
                old(self)@.liquidate_bill(old(pool)@, old(token)@, bill_id, liquidator, now),
                old(self)@.liquidated(bill_id, now),
                old(self)@,
                final(self)@,
                old(pool)@,
                final(pool)@,
                old(token)@,
                final(token)@,
                r,
            ),
    {
        let config = match self.config {
            Some(config) => config,
            None => {
                return Err(Error::NotInitialized);
            },
        };
        if pool.balance(liquidator) == 0 {
            return Err(Error::NonLpTokenHolder);
        }
        if !self.has_bill(bill_id) {
            return Err(Error::BillNotFound);
        }
        assert(self@.bills.len() == self.bills.len());
        let bill = &self.bills[(bill_id - 1) as usize];
        let user = bill.user;
        let principal = bill.principal;
        let paid_at = bill.paid_at;
        if now < bill.created_at || now - bill.created_at < LIQUIDATION_THRESHOLD_DAYS
            * SECONDS_PER_DAY {
            return Err(Error::GracePeriodNotExpired);
        }
        if !(bill.status == BillStatus::Paid || bill.status == BillStatus::Overdue) {
            return Err(Error::LiquidationNotPossible);
        }
        let fee = match calc_late_fee(now, bill.created_at, principal) {
            Ok(fee) => fee,
            Err(_) => {
                return Err(Error::InternalError);
            },
        };
        let penalty = match compute_liquidation_penalty(principal) {
            Ok(penalty) => penalty,
            Err(_) => {
                return Err(Error::InternalError);
            },
        };
        if fee > i128::MAX - penalty {
            return Err(Error::InternalError);
        }
        let pool_before = pool.duplicate();
        let token_before = token.duplicate();
        if let Err(e) = self.liquidation_flow(
            &config,
            pool,
            token,
            user,
            liquidator,
            principal,
            fee,
            penalty,
        ) {
            *pool = pool_before;
            *token = token_before;
            return Err(e);
        }
        self.mark_bill(bill_id, BillStatus::Liquidated, paid_at);
        self.close_bill(env, user, bill_id);
        Ok(principal + (fee + penalty))
    }

    /// The rates and periods that callers display.
    pub fn get_protocol_constants() -> (c: ProtocolConstants)
        ensures
            c == (ProtocolConstants {
                merchant_fee_rate: MERCHANT_FEE_RATE,
                late_interest_apr: LATE_INTEREST_APR,
                max_ltv: MAX_LTV,
                collateral_ratio: COLLATERAL_RATIO,
                grace_period_days: GRACE_PERIOD_DAYS as i128,
                fee_to_lp_ratio: FEE_TO_LP_RATIO,
                fee_to_treasury_ratio: FEE_TO_TREASURY_RATIO,
                fee_to_insurance_ratio: FEE_TO_INSURANCE_RATIO,
            }),
    {
        ProtocolConstants {
            merchant_fee_rate: MERCHANT_FEE_RATE,
            late_interest_apr: LATE_INTEREST_APR,
            max_ltv: MAX_LTV,
            collateral_ratio: COLLATERAL_RATIO,
            grace_period_days: GRACE_PERIOD_DAYS as i128,
            fee_to_lp_ratio: FEE_TO_LP_RATIO,
            fee_to_treasury_ratio: FEE_TO_TREASURY_RATIO,
            fee_to_insurance_ratio: FEE_TO_INSURANCE_RATIO,
        }
    }
}

} // verus!
