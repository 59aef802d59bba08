//! The pool ledger: rebasing shares of the capital that funds the credit.
//!
//! Liquidity providers hold shares; one global index converts shares to
//! underlying value and only ever rises, when yield arrives. The credit ledger
//! borrows from the pool and repays it, and a liquidation burns the shares of
//! the delinquent account. [`PoolState`] is the ledger as mathematics;
//! [`LpToken`] is the executable ledger, proved to take the steps that
//! [`PoolState`] describes and to change nothing when it fails.

use crate::error::{PoolError, TokenError};
use crate::host_books::{AllowanceBook, ShareBook};
use crate::ledger::Address;
use crate::types::TokenMetadata;
use crate::step::took_step;
use crate::usdc_token::{TokenState, UsdcToken};
use vstd::prelude::*;

verus! {

broadcast use {ShareBook::lemma_view_total, AllowanceBook::lemma_view_total};

/// Fixed-point scale of the index: an index of `DECIMALS` values one share at one unit.
pub const DECIMALS: u128 = 1_000_000_000;

/// Number of decimals of the share token.
pub const SHARE_DECIMALS: u32 = 9;

/// Scale of the utilization ratio: 10000 basis points are 100%.
pub const BASIS_POINTS: u128 = 10000;

/// The underlying value of `shares` at `index`.
pub open spec fn value_of(shares: nat, index: nat) -> nat {
    shares * index / (DECIMALS as nat)
}

/// The shares that `amount` of underlying value converts to at `index`.
pub open spec fn shares_for(amount: nat, index: nat) -> nat {
    amount * (DECIMALS as nat) / index
}

/// What the pool's assets amount to: what it holds plus what it has lent out.
pub open spec fn total_assets(underlying: int, borrowed: nat) -> int {
    underlying + borrowed
}

/// The index after yield is applied: raised to `assets * DECIMALS / supply`
/// where the assets exceed what the shares are worth, else unchanged.
pub open spec fn index_after_yield(index: nat, supply: nat, assets: int) -> nat {
    if supply == 0 || assets <= 0 || assets <= value_of(supply, index) {
        index
    } else {
        (assets * DECIMALS / (supply as int)) as nat
    }
}

/// The pool ledger as mathematics.
pub struct PoolState {
    /// The account under which the pool holds the settlement asset.
    pub address: Address,
    /// The administrator, once the pool is initialized.
    pub admin: Option<Address>,
    /// The settlement asset, once the pool is initialized.
    pub asset: Option<Address>,
    /// Name, symbol and decimals of the share token, once the pool is initialized.
    pub metadata: Option<TokenMetadata>,
    /// The credit ledger that may borrow, once it is configured.
    pub bnpl_core: Option<Address>,
    pub index: nat,
    /// Total outstanding shares.
    pub supply: nat,
    pub shares: Map<Address, nat>,
    /// What is lent out and not yet returned.
    pub borrowed: nat,
    /// Keyed by owner and spender.
    pub allowances: Map<(Address, Address), int>,
}

impl PoolState {
    /// What every reachable state satisfies: the index never falls below its
    /// initial value, and the worth of all shares is within machine range.
    pub open spec fn valid(self) -> bool {
        &&& DECIMALS <= self.index
        &&& self.supply * self.index <= u128::MAX
        &&& self.borrowed <= u128::MAX
        &&& forall|a: Address| #[trigger] self.shares[a] <= self.supply
    }

    /// The underlying value of `account`'s shares.
    pub open spec fn balance(self, account: Address) -> nat {
        value_of(self.shares[account], self.index)
    }

    /// The underlying value of all shares.
    pub open spec fn total_supply(self) -> nat {
        value_of(self.supply, self.index)
    }

    /// What is locked of an account for which the credit ledger reports
    /// `required_collateral`: nothing while no credit ledger is configured,
    /// and nothing for a requirement below zero.
    pub open spec fn locked(self, required_collateral: int) -> int {
        if self.bnpl_core is None || required_collateral < 0 {
            0
        } else {
            required_collateral
        }
    }

    /// What `account` may withdraw or hand on: its balance less what is
    /// locked, and nothing where more is locked than it holds.
    pub open spec fn available(self, account: Address, required_collateral: int) -> int {
        let total = self.balance(account) as int;
        let locked = self.locked(required_collateral);
        if total > locked {
            total - locked
        } else {
            0
        }
    }

    /// The pool with `minted` more shares in `to`'s hands.
    pub open spec fn credited(self, to: Address, minted: nat) -> PoolState {
        PoolState {
            shares: self.shares.insert(to, self.shares[to] + minted),
            supply: self.supply + minted,
            ..self
        }
    }

    /// The pool with `burned` fewer shares in `from`'s hands.
    pub open spec fn debited(self, from: Address, burned: nat) -> PoolState {
        PoolState {
            shares: self.shares.insert(from, (self.shares[from] - burned) as nat),
            supply: (self.supply - burned) as nat,
            ..self
        }
    }

    /// The pool after `initialize`.
    pub open spec fn initialize(
        self,
        admin: Address,
        underlying_asset: Address,
        metadata: TokenMetadata,
    ) -> Result<PoolState, PoolError> {
        if self.admin is Some {
            Err(PoolError::AlreadyInitialized)
        } else {
            Ok(
                PoolState {
                    admin: Some(admin),
                    asset: Some(underlying_asset),
                    metadata: Some(metadata),
                    ..self
                },
            )
        }
    }

    /// The pool after `update_index`, where it holds `underlying` of the asset.
    pub open spec fn update_index(self, underlying: int) -> Result<PoolState, PoolError> {
        let assets = total_assets(underlying, self.borrowed);
        if self.supply == 0 || assets <= value_of(self.supply, self.index) {
            Ok(self)
        } else if assets * DECIMALS > u128::MAX {
            Err(PoolError::Overflow)
        } else {
            Ok(PoolState { index: index_after_yield(self.index, self.supply, assets), ..self })
        }
    }

    /// Whether the shares that `amount` converts to can be minted: the amount
    /// can be scaled, and the worth of all shares stays within machine range.
    pub open spec fn can_mint(self, amount: int) -> bool {
        &&& amount * DECIMALS <= u128::MAX
        &&& (self.supply + shares_for(amount as nat, self.index)) * self.index <= u128::MAX
    }

    /// The pool after minting the shares that `amount` converts to, to `to`.
    pub open spec fn mint_shares(self, to: Address, amount: int) -> Result<PoolState, PoolError> {
        if self.can_mint(amount) {
            Ok(self.credited(to, shares_for(amount as nat, self.index)))
        } else {
            Err(PoolError::Overflow)
        }
    }

    /// The pool after a liquidation burns the shares that `amount` converts
    /// to, out of `from`'s hands.
    pub open spec fn burn_collateral(self, from: Address, amount: int) -> Result<
        PoolState,
        PoolError,
    > {
        let burned = shares_for(amount as nat, self.index);
        if amount * DECIMALS > u128::MAX {
            Err(PoolError::Overflow)
        } else if burned > self.shares[from] {
            Err(PoolError::InsufficientCollateralForLiquidation)
        } else {
            Ok(self.debited(from, burned))
        }
    }

    /// The pool after `from` hands the shares that `amount` converts to, to `to`.
    pub open spec fn moved(self, from: Address, to: Address, amount: int) -> PoolState {
        let shares = shares_for(amount as nat, self.index);
        let debited = self.shares.insert(from, (self.shares[from] - shares) as nat);
        PoolState { shares: debited.insert(to, debited[to] + shares), ..self }
    }

    /// Pool and asset ledger after `from` deposits `amount`.
    pub open spec fn deposit(self, token: TokenState, from: Address, amount: int) -> Result<
        (PoolState, TokenState),
        PoolError,
    > {
        if amount <= 0 {
            Err(PoolError::InvalidAmount)
        } else if self.asset is None {
            Err(PoolError::NotInitialized)
        } else {
            match self.update_index(token.balances[self.address] as int) {
                Err(e) => Err(e),
                Ok(pool) => match token.transfer(from, self.address, amount) {
                    Err(e) => Err(PoolError::Asset(e)),
                    Ok(paid) => match pool.mint_shares(from, amount) {
                        Err(e) => Err(e),
                        Ok(minted) => Ok((minted, paid)),
                    },
                },
            }
        }
    }

    /// Pool and asset ledger after `from` withdraws `amount`, where the
    /// credit ledger reports `required_collateral` for `from`.
    pub open spec fn withdraw(
        self,
        token: TokenState,
        from: Address,
        amount: int,
        required_collateral: int,
    ) -> Result<(PoolState, TokenState), PoolError> {
        if amount <= 0 {
            Err(PoolError::InvalidAmount)
        } else if self.asset is None {
            Err(PoolError::NotInitialized)
        } else if amount > self.available(from, required_collateral) {
            Err(PoolError::InsufficientAvailableBalance)
        } else {
            match token.transfer(self.address, from, amount) {
                Err(e) => Err(PoolError::Asset(e)),
                Ok(paid) => Ok((self.debited(from, shares_for(amount as nat, self.index)), paid)),
            }
        }
    }

    /// Pool and asset ledger after the credit ledger borrows `amount`, paid out to `to`.
    pub open spec fn borrow(self, token: TokenState, to: Address, amount: int) -> Result<
        (PoolState, TokenState),
        PoolError,
    > {
        if self.bnpl_core is None {
            Err(PoolError::CreditLedgerNotSet)
        } else if amount <= 0 {
            Err(PoolError::InvalidAmount)
        } else if self.borrowed + amount > u128::MAX {
            Err(PoolError::Overflow)
        } else {
            match token.transfer(self.address, to, amount) {
                Err(e) => Err(PoolError::Asset(e)),
                Ok(paid) => Ok((PoolState { borrowed: (self.borrowed + amount) as nat, ..self }, paid)),
            }
        }
    }

    /// What a repayment of `amount` returns: no more than is lent out.
    pub open spec fn repaid(self, amount: int) -> int {
        if amount > self.borrowed {
            self.borrowed as int
        } else {
            amount
        }
    }

    /// Pool and asset ledger after `from` repays `amount`, pulled from its
    /// funds against the allowance it gave the pool.
    pub open spec fn repay(self, token: TokenState, from: Address, amount: int) -> Result<
        (PoolState, TokenState),
        PoolError,
    > {
        if self.bnpl_core is None {
            Err(PoolError::CreditLedgerNotSet)
        } else if amount <= 0 {
            Err(PoolError::InvalidAmount)
        } else {
            match token.transfer_from(self.address, from, self.address, self.repaid(amount)) {
                Err(e) => Err(PoolError::Asset(e)),
                Ok(paid) => Ok(
                    (
                        PoolState {
                            borrowed: (self.borrowed - self.repaid(amount)) as nat,
                            ..self
                        },
                        paid,
                    ),
                ),
            }
        }
    }

    /// Pool and asset ledger after a liquidation: the shares that
    /// `principal + fee` converts to are burned out of `from`'s hands, the
    /// loan book shrinks by `principal`, and `fee` is paid to the credit ledger.
    pub open spec fn repay_with_burn(
        self,
        token: TokenState,
        from: Address,
        principal: int,
        fee: int,
    ) -> Result<(PoolState, TokenState), PoolError> {
        if self.bnpl_core is None {
            Err(PoolError::CreditLedgerNotSet)
        } else if principal < 0 || fee < 0 {
            Err(PoolError::InvalidAmount)
        } else if principal + fee > i128::MAX {
            Err(PoolError::Overflow)
        } else {
            match self.burn_collateral(from, principal + fee) {
                Err(e) => Err(e),
                Ok(burned) => {
                    let pool = PoolState {
                        borrowed: (self.borrowed - self.repaid(principal)) as nat,
                        ..burned
                    };
                    if fee == 0 {
                        Ok((pool, token))
                    } else {
                        match token.transfer(self.address, self.bnpl_core->Some_0, fee) {
                            Err(e) => Err(PoolError::Asset(e)),
                            Ok(paid) => Ok((pool, paid)),
                        }
                    }
                },
            }
        }
    }

    /// The pool after the administrator mints the shares that `amount` converts to, to `to`.
    pub open spec fn mint(self, to: Address, amount: int) -> Result<PoolState, PoolError> {
        if self.admin is None {
            Err(PoolError::NotInitialized)
        } else if amount < 0 {
            Err(PoolError::InvalidAmount)
        } else {
            self.mint_shares(to, amount)
        }
    }

    /// The pool after `from` hands `amount` of its balance to `to`.
    pub open spec fn transfer(
        self,
        from: Address,
        to: Address,
        amount: int,
        required_collateral: int,
    ) -> Result<PoolState, PoolError> {
        if amount < 0 {
            Err(PoolError::InvalidAmount)
        } else if amount > self.available(from, required_collateral) {
            Err(PoolError::InsufficientAvailableBalance)
        } else {
            Ok(self.moved(from, to, amount))
        }
    }

    /// The pool with the allowance of `spender` over `from`'s balance lowered by `amount`.
    pub open spec fn spent(self, spender: Address, from: Address, amount: int) -> PoolState {
        PoolState {
            allowances: self.allowances.insert(
                (from, spender),
                self.allowances[(from, spender)] - amount,
            ),
            ..self
        }
    }

    /// The pool after `spender` hands `amount` of `from`'s balance to `to`.
    pub open spec fn transfer_from(
        self,
        spender: Address,
        from: Address,
        to: Address,
        amount: int,
        required_collateral: int,
    ) -> Result<PoolState, PoolError> {
        if amount < 0 {
            Err(PoolError::InvalidAmount)
        } else if self.allowances[(from, spender)] < amount {
            Err(PoolError::AllowanceExceeded)
        } else {
            self.spent(spender, from, amount).transfer(from, to, amount, required_collateral)
        }
    }

    /// The pool after `from` burns `amount` of its balance.
    pub open spec fn burn(self, from: Address, amount: int, required_collateral: int) -> Result<
        PoolState,
        PoolError,
    > {
        if amount < 0 {
            Err(PoolError::InvalidAmount)
        } else if amount > self.available(from, required_collateral) {
            Err(PoolError::InsufficientAvailableBalance)
        } else {
            Ok(self.debited(from, shares_for(amount as nat, self.index)))
        }
    }

    /// The pool after `spender` burns `amount` of `from`'s balance.
    pub open spec fn burn_from(
        self,
        spender: Address,
        from: Address,
        amount: int,
        required_collateral: int,
    ) -> Result<PoolState, PoolError> {
        if amount < 0 {
            Err(PoolError::InvalidAmount)
        } else if amount > self.available(from, required_collateral) {
            Err(PoolError::InsufficientAvailableBalance)
        } else if self.allowances[(from, spender)] < amount {
            Err(PoolError::AllowanceExceeded)
        } else {
            Ok(
                self.spent(spender, from, amount).debited(
                    from,
                    shares_for(amount as nat, self.index),
                ),
            )
        }
    }

    /// The pool after `from` lets `spender` move up to `amount` of its balance.
    pub open spec fn approve(self, from: Address, spender: Address, amount: int) -> PoolState {
        PoolState { allowances: self.allowances.insert((from, spender), amount), ..self }
    }

    /// The pool after the credit ledger is configured.
    pub open spec fn set_bnpl_core(self, bnpl_core: Address) -> Result<PoolState, PoolError> {
        if self.admin is None {
            Err(PoolError::NotInitialized)
        } else {
            Ok(PoolState { bnpl_core: Some(bnpl_core), ..self })
        }
    }

    /// The share of the pool's assets that is lent out, in basis points.
    pub open spec fn utilization_ratio(self, underlying: int) -> Result<int, PoolError> {
        let assets = total_assets(underlying, self.borrowed);
        if assets == 0 {
            Ok(0)
        } else if self.borrowed * BASIS_POINTS > u128::MAX {
            Err(PoolError::Overflow)
        } else {
            Ok(self.borrowed * BASIS_POINTS / assets)
        }
    }
}

/// Whether an operation on pool and asset ledger that reports `r` took the
/// step `outcome`: both new states and the value on success, no change on failure.
pub open spec fn took_joint_step<T>(
    outcome: Result<(PoolState, TokenState), PoolError>,
    value: T,
    pool_before: PoolState,
    pool_after: PoolState,
    token_before: TokenState,
    token_after: TokenState,
    r: Result<T, PoolError>,
) -> bool {
    match outcome {
        Ok((pool, token)) => r == Ok::<T, PoolError>(value) && pool_after == pool && token_after
            == token,
        Err(e) => r == Err::<T, PoolError>(e) && pool_after == pool_before && token_after
            == token_before,
    }
}

/// The executable pool ledger.
pub struct LpToken {
    address: Address,
    admin: Option<Address>,
    asset: Option<Address>,
    metadata: Option<TokenMetadata>,
    bnpl_core: Option<Address>,
    index: u128,
    supply: u128,
    shares: ShareBook,
    borrowed: u128,
    allowances: AllowanceBook,
}

impl View for LpToken {
    type V = PoolState;

    closed spec fn view(&self) -> PoolState {
        PoolState {
            address: self.address,
            admin: self.admin,
            asset: self.asset,
            metadata: self.metadata,
            bnpl_core: self.bnpl_core,
            index: self.index as nat,
            supply: self.supply as nat,
            shares: self.shares@,
            borrowed: self.borrowed as nat,
            allowances: self.allowances@,
        }
    }
}

/// `a * b <= c * d` where `a <= c` and `b <= d`, for amounts.
pub proof fn lemma_mul_le(a: nat, b: nat, c: nat, d: nat)
    by (nonlinear_arith)
    requires
        a <= c,
        b <= d,
    ensures
        a * b <= c * d,
{
}

/// Dividing by a larger index gives no more shares.
pub proof fn lemma_shares_le_amount(amount: nat, index: nat)
    by (nonlinear_arith)
    requires
        DECIMALS <= index,
    ensures
        shares_for(amount, index) <= amount,
        shares_for(amount, index) * index <= amount * DECIMALS,
{
}

/// An amount within the value of some shares converts to no more than those shares.
pub proof fn lemma_amount_within_value(amount: nat, shares: nat, index: nat)
    by (nonlinear_arith)
    requires
        DECIMALS <= index,
        amount <= value_of(shares, index),
    ensures
        amount * DECIMALS <= shares * index,
        shares_for(amount, index) <= shares,
{
}

/// The index that yield raises it to is no lower than before, and the shares
/// are worth no more than the assets at it.
pub proof fn lemma_index_after_yield(index: nat, supply: nat, assets: int)
    ensures
        index <= index_after_yield(index, supply, assets),
        index_after_yield(index, supply, assets) != index ==> supply * index_after_yield(
            index,
            supply,
            assets,
        ) <= assets * DECIMALS,
{
    if !(supply == 0 || assets <= 0 || assets <= value_of(supply, index)) {
        let raised = assets * DECIMALS / (supply as int);
        assert(index <= raised && supply * raised <= assets * DECIMALS) by (nonlinear_arith)
            requires
                supply > 0,
                assets > (supply * index) / (DECIMALS as nat),
                raised == assets * DECIMALS / (supply as int),
                DECIMALS == 1_000_000_000,
        ;
    }
}

impl LpToken {
    /// Whether the books are in order and the shares of all accounts add up
    /// to the supply.
    pub closed spec fn shares_add_up(&self) -> bool {
        &&& self.shares.wf()
        &&& self.allowances.wf()
        &&& self.shares.total() == self.supply
    }

    /// The invariant of the pool: its state is valid, and the shares of all
    /// accounts add up to the supply.
    pub open spec fn wf(&self) -> bool {
        self@.valid() && self.shares_add_up()
    }

    /// A balance is at most nine tenths of the largest signed amount, so that
    /// ninety times a balance stays in range.
    pub proof fn lemma_balance_bound(&self, user: Address)
        requires
            self.wf(),
        ensures
            self@.balance(user) * 90 <= i128::MAX,
            self@.balance(user) <= self@.total_supply(),
    {
        assert(self@.shares[user] <= self@.supply);
        lemma_mul_le(self@.shares[user], self@.index, self@.supply, self@.index);
    }

    /// A pool that is not initialized, holding the asset under `address`.
    pub fn new(env: &soroban_sdk::Env, address: Address) -> (p: LpToken)
        ensures
            p.wf(),
            p@ == (PoolState {
                address,
                admin: None,
                asset: None,
                metadata: None,
                bnpl_core: None,
                index: DECIMALS as nat,
                supply: 0,
                shares: Map::total(|k: Address| 0nat),
                borrowed: 0,
                allowances: Map::total(|p: (Address, Address)| 0int),
            }),
    {
        LpToken {
            address,
            admin: None,
            asset: None,
            metadata: None,
            bnpl_core: None,
            index: DECIMALS,
            supply: 0,
            shares: ShareBook::new(env),
            borrowed: 0,
            allowances: AllowanceBook::new(env),
        }
    }

    /// A copy of the pool in the same state.
    pub fn duplicate(&self) -> (p: LpToken)
        requires
            self.wf(),
        ensures
            p.wf(),
            p@ == self@,
    {
        let metadata = match &self.metadata {
            Some(m) => Some(m.duplicate()),
            None => None,
        };
        LpToken {
            address: self.address,
            admin: self.admin,
            asset: self.asset,
            metadata,
            bnpl_core: self.bnpl_core,
            index: self.index,
            supply: self.supply,
            shares: self.shares.duplicate(),
            borrowed: self.borrowed,
            allowances: self.allowances.duplicate(),
        }
    }

    /// Sets administrator, settlement asset and metadata; once only.
    pub fn initialize(&mut self, admin: Address, underlying_asset: Address, metadata: TokenMetadata) -> (r:
        Result<(), PoolError>)
        requires
            old(self).wf(),
        ensures
            final(self).wf(),
            took_step(
                old(self)@.initialize(admin, underlying_asset, metadata),
                old(self)@,
                final(self)@,
                r,
            ),
    {
        if self.admin.is_some() {
            return Err(PoolError::AlreadyInitialized);
        }
        self.admin = Some(admin);
        self.asset = Some(underlying_asset);
        self.metadata = Some(metadata);
        Ok(())
    }

    /// The account under which the pool holds the settlement asset.
    pub fn address(&self) -> (a: Address)
        ensures
            a == self@.address,
    {
        self.address
    }

    /// The administrator, once the pool is initialized.
    pub fn admin(&self) -> (a: Option<Address>)
        ensures
            a == self@.admin,
    {
        self.admin
    }

    /// The underlying value of one share, scaled by `DECIMALS`.
    pub fn exchange_rate(&self) -> (i: u128)
        ensures
            i == self@.index,
    {
        self.index
    }

    /// The settlement asset, once the pool is initialized.
    pub fn underlying_asset(&self) -> (a: Option<Address>)
        ensures
            a == self@.asset,
    {
        self.asset
    }

    /// What the pool holds of the settlement asset.
    pub fn total_underlying(&self, token: &UsdcToken) -> (b: i128)
        requires
            token.wf(),
        ensures
            b == token@.balances[self@.address],
    {
        token.balance(self.address)
    }

    /// The credit ledger that may borrow, once it is configured.
    pub fn get_bnpl_core(&self) -> (c: Option<Address>)
        ensures
            c == self@.bnpl_core,
    {
        self.bnpl_core
    }

    /// What is lent out and not yet returned.
    pub fn total_borrowed(&self) -> (b: u128)
        ensures
            b == self@.borrowed,
    {
        self.borrowed
    }

    /// Name, symbol and decimals of the share token, once the pool is initialized.
    pub fn metadata(&self) -> (m: Option<&TokenMetadata>)
        ensures
            m == match self@.metadata {
                Some(d) => Some(&d),
                None => None,
            },
    {
        self.metadata.as_ref()
    }

    /// The underlying value of `user`'s shares.
    pub fn balance(&self, user: Address) -> (b: i128)
        requires
            self.wf(),
        ensures
            b == self@.balance(user),
    {
        let shares = self.shares.get(user);
        proof {
            assert(self@.shares[user] <= self@.supply);
            lemma_mul_le(shares as nat, self.index as nat, self.supply as nat, self.index as nat);
        }
        (shares * self.index / DECIMALS) as i128
    }

    /// The underlying value of all shares.
    pub fn total_supply(&self) -> (s: i128)
        requires
            self.wf(),
        ensures
            s == self@.total_supply(),
    {
        (self.supply * self.index / DECIMALS) as i128
    }

    /// Applies yield: raises the index where the pool's assets exceed what
    /// the shares are worth. The index never falls.
    pub fn update_index(&mut self, token: &UsdcToken) -> (r: Result<(), PoolError>)
        requires
            old(self).wf(),
            token.wf(),
        ensures
            final(self).wf(),
            took_step(
                old(self)@.update_index(token@.balances[old(self)@.address] as int),
                old(self)@,
                final(self)@,
                r,
            ),
            old(self)@.index <= final(self)@.index,
    {
        let underlying = token.balance(self.address);
        let ghost assets = total_assets(underlying as int, self.borrowed as nat);
        proof {
            lemma_index_after_yield(self.index as nat, self.supply as nat, assets);
        }
        if self.supply == 0 {
            return Ok(());
        }
        let expected = self.supply * self.index / DECIMALS;
        assert(expected == value_of(self.supply as nat, self.index as nat));
        match (underlying as u128).checked_add(self.borrowed) {
            None => Err(PoolError::Overflow),
            Some(total) => {
                if total <= expected {
                    return Ok(());
                }
                match total.checked_mul(DECIMALS) {
                    None => Err(PoolError::Overflow),
                    Some(scaled) => {
                        self.index = scaled / self.supply;
                        Ok(())
                    },
                }
            },
        }
    }

    /// The shares that `amount` converts to, where minting them keeps the
    /// worth of all shares within machine range.
    fn plan_mint(&self, amount: i128) -> (r: Result<u128, PoolError>)
        requires
            self.wf(),
            amount >= 0,
        ensures
            r == (if self@.can_mint(amount as int) {
                Ok::<u128, PoolError>(shares_for(amount as nat, self@.index) as u128)
            } else {
                Err::<u128, PoolError>(PoolError::Overflow)
            }),
            r is Ok ==> shares_for(amount as nat, self@.index) + self@.supply <= u128::MAX,
    {
        let scaled = match (amount as u128).checked_mul(DECIMALS) {
            Some(scaled) => scaled,
            None => {
                return Err(PoolError::Overflow);
            },
        };
        let minted = scaled / self.index;
        let ghost index = self.index as nat;
        let supply = match self.supply.checked_add(minted) {
            Some(supply) => supply,
            None => {
                assert((self.supply + minted) * index > u128::MAX) by (nonlinear_arith)
                    requires
                        self.supply + minted > u128::MAX,
                        index >= 1,
                ;
                return Err(PoolError::Overflow);
            },
        };
        if supply.checked_mul(self.index).is_none() {
            return Err(PoolError::Overflow);
        }
        Ok(minted)
    }

    /// Hands `minted` new shares to `to`.
    fn apply_mint(&mut self, to: Address, minted: u128)
        requires
            old(self).wf(),
            (old(self)@.supply + minted) * old(self)@.index <= u128::MAX,
            old(self)@.supply + minted <= u128::MAX,
        ensures
            final(self).wf(),
            final(self)@ == old(self)@.credited(to, minted as nat),
    {
        proof {
            self.shares.lemma_amount_le_total(to);
        }
        let held = self.shares.get(to);
        self.shares.set(to, held + minted);
        self.supply = self.supply + minted;
        proof {
            assert forall|a: Address| #[trigger] self@.shares[a] <= self@.supply by {
                self.shares.lemma_amount_le_total(a);
            }
            assert(self@ =~= old(self)@.credited(to, minted as nat));
        }
    }

    /// The shares that a liquidation burns for `amount`, where `from` holds that many.
    fn plan_burn(&self, from: Address, amount: i128) -> (r: Result<u128, PoolError>)
        requires
            self.wf(),
            amount >= 0,
        ensures
            match self@.burn_collateral(from, amount as int) {
                Ok(_) => r == Ok::<u128, PoolError>(
                    shares_for(amount as nat, self@.index) as u128,
                ) && shares_for(amount as nat, self@.index) <= self@.shares[from],
                Err(e) => r == Err::<u128, PoolError>(e),
            },
    {
        let scaled = match (amount as u128).checked_mul(DECIMALS) {
            Some(scaled) => scaled,
            None => {
                return Err(PoolError::Overflow);
            },
        };
        let burned = scaled / self.index;
        if burned > self.shares.get(from) {
            return Err(PoolError::InsufficientCollateralForLiquidation);
        }
        Ok(burned)
    }

    /// Takes `burned` shares out of `from`'s hands.
    fn apply_burn(&mut self, from: Address, burned: u128)
        requires
            old(self).wf(),
            burned <= old(self)@.shares[from],
        ensures
            final(self).wf(),
            final(self)@ == old(self)@.debited(from, burned as nat),
    {
        proof {
            self.shares.lemma_amount_le_total(from);
            lemma_mul_le(
                (self.supply - burned) as nat,
                self.index as nat,
                self.supply as nat,
                self.index as nat,
            );
        }
        let held = self.shares.get(from);
        self.shares.set(from, held - burned);
        self.supply = self.supply - burned;
        proof {
            assert forall|a: Address| #[trigger] self@.shares[a] <= self@.supply by {
                self.shares.lemma_amount_le_total(a);
            }
            assert(self@ =~= old(self)@.debited(from, burned as nat));
        }
    }

    /// The shares that an `amount` within `from`'s balance converts to.
    fn shares_within_balance(&self, from: Address, amount: i128) -> (shares: u128)
        requires
            self.wf(),
            0 <= amount <= self@.balance(from),
        ensures
            shares == shares_for(amount as nat, self@.index),
            shares <= self@.shares[from],
    {
        proof {
            lemma_amount_within_value(amount as nat, self@.shares[from], self@.index);
            assert(self@.shares[from] <= self@.supply);
            lemma_mul_le(self@.shares[from], self@.index, self@.supply, self@.index);
        }
        (amount as u128) * DECIMALS / self.index
    }

    /// Deposits `amount` of the settlement asset for `from`: applies pending
    /// yield, pulls the amount into the pool and mints shares at the current
    /// index. Returns the underlying value credited.
    pub fn deposit(&mut self, token: &mut UsdcToken, from: Address, amount: i128) -> (r: Result<
        i128,
        PoolError,
    >)
        requires
            old(self).wf(),
            old(token).wf(),
        ensures
            final(self).wf(),
            final(token).wf(),
            took_joint_step(
                old(self)@.deposit(old(token)@, from, amount as int),
                amount,
                old(self)@,
                final(self)@,
                old(token)@,
                final(token)@,
                r,
            ),
            old(self)@.index <= final(self)@.index,
    {
        if amount <= 0 {
            return Err(PoolError::InvalidAmount);
        }
        if self.asset.is_none() {
            return Err(PoolError::NotInitialized);
        }
        let index_before = self.index;
        if let Err(e) = self.update_index(token) {
            return Err(e);
        }
        if token.balance(from) < amount {
            self.index = index_before;
            assert(self@ =~= old(self)@);
            return Err(PoolError::Asset(TokenError::InsufficientBalance));
        }
        match self.plan_mint(amount) {
            Err(e) => {
                self.index = index_before;
                assert(self@ =~= old(self)@);
                Err(e)
            },
            Ok(minted) => {
                let paid = token.transfer(from, self.address, amount);
                assert(paid is Ok);
                self.apply_mint(from, minted);
                Ok(amount)
            },
        }
    }

    /// What is locked of an account for which the credit ledger reports `required_collateral`.
    pub fn get_locked_balance(&self, required_collateral: i128) -> (locked: i128)
        ensures
            locked == self@.locked(required_collateral as int),
    {
        if self.bnpl_core.is_none() || required_collateral < 0 {
            0
        } else {
            required_collateral
        }
    }

    /// What `user` may withdraw or hand on: its balance less what is locked,
    /// never below zero.
    pub fn available_balance(&self, user: Address, required_collateral: i128) -> (available: i128)
        requires
            self.wf(),
        ensures
            available == self@.available(user, required_collateral as int),
            0 <= available <= self@.balance(user),
    {
        let total = self.balance(user);
        let locked = self.get_locked_balance(required_collateral);
        if total > locked {
            total - locked
        } else {
            0
        }
    }

    /// Balance, locked part and available part of `user`.
    pub fn get_balance_info(&self, user: Address, required_collateral: i128) -> (info: (
        i128,
        i128,
        i128,
    ))
        requires
            self.wf(),
        ensures
            info.0 == self@.balance(user),
            info.1 == self@.locked(required_collateral as int),
            info.2 == self@.available(user, required_collateral as int),
    {
        let total = self.balance(user);
        let locked = self.get_locked_balance(required_collateral);
        let available = if total > locked {
            total - locked
        } else {
            0
        };
        (total, locked, available)
    }

    /// Withdraws `amount` for `from` out of what is not locked: burns the
    /// shares that the amount converts to and pays the amount out.
    pub fn withdraw(
        &mut self,
        token: &mut UsdcToken,
        from: Address,
        amount: i128,
        required_collateral: i128,
    ) -> (r: Result<i128, PoolError>)
        requires
            old(self).wf(),
            old(token).wf(),
        ensures
            final(self).wf(),
            final(token).wf(),
            took_joint_step(
                old(self)@.withdraw(old(token)@, from, amount as int, required_collateral as int),
                amount,
                old(self)@,
                final(self)@,
                old(token)@,
                final(token)@,
                r,
            ),
            final(self)@.index == old(self)@.index,
    {
        if amount <= 0 {
            return Err(PoolError::InvalidAmount);
        }
        if self.asset.is_none() {
            return Err(PoolError::NotInitialized);
        }
        if amount > self.available_balance(from, required_collateral) {
            return Err(PoolError::InsufficientAvailableBalance);
        }
        let burned = self.shares_within_balance(from, amount);
        if let Err(e) = token.transfer(self.address, from, amount) {
            return Err(PoolError::Asset(e));
        }
        self.apply_burn(from, burned);
        Ok(amount)
    }

    /// Configures the credit ledger that may borrow.
    pub fn set_bnpl_core(&mut self, bnpl_core: Address) -> (r: Result<(), PoolError>)
        requires
            old(self).wf(),
        ensures
            final(self).wf(),
            took_step(old(self)@.set_bnpl_core(bnpl_core), old(self)@, final(self)@, r),
    {
        if self.admin.is_none() {
            return Err(PoolError::NotInitialized);
        }
        self.bnpl_core = Some(bnpl_core);
        Ok(())
    }

    /// Lends `amount` to the credit ledger and pays it out to `to`.
    pub fn borrow(&mut self, token: &mut UsdcToken, to: Address, amount: i128) -> (r: Result<
        (),
        PoolError,
    >)
        requires
            old(self).wf(),
            old(token).wf(),
        ensures
            final(self).wf(),
            final(token).wf(),
            took_joint_step(
                old(self)@.borrow(old(token)@, to, amount as int),
                (),
                old(self)@,
                final(self)@,
                old(token)@,
                final(token)@,
                r,
            ),
    {
        if self.bnpl_core.is_none() {
            return Err(PoolError::CreditLedgerNotSet);
        }
        if amount <= 0 {
            return Err(PoolError::InvalidAmount);
        }
        let borrowed = match self.borrowed.checked_add(amount as u128) {
            Some(borrowed) => borrowed,
            None => {
                return Err(PoolError::Overflow);
            },
        };
        if let Err(e) = token.transfer(self.address, to, amount) {
            return Err(PoolError::Asset(e));
        }
        self.borrowed = borrowed;
        assert(self@ =~= (PoolState { borrowed: borrowed as nat, ..old(self)@ }));
        Ok(())
    }

    /// Takes back up to `amount` of what is lent out, pulled from `from`'s
    /// funds against the allowance it gave the pool. Returns what was taken back.
    pub fn repay(&mut self, token: &mut UsdcToken, from: Address, amount: i128) -> (r: Result<
        i128,
        PoolError,
    >)
        requires
            old(self).wf(),
            old(token).wf(),
        ensures
            final(self).wf(),
            final(token).wf(),
            took_joint_step(
                old(self)@.repay(old(token)@, from, amount as int),
                old(self)@.repaid(amount as int) as i128,
                old(self)@,
                final(self)@,
                old(token)@,
                final(token)@,
                r,
            ),
    {
        if self.bnpl_core.is_none() {
            return Err(PoolError::CreditLedgerNotSet);
        }
        if amount <= 0 {
            return Err(PoolError::InvalidAmount);
        }
        let repaid: u128 = if amount as u128 > self.borrowed {
            self.borrowed
        } else {
            amount as u128
        };
        if let Err(e) = token.transfer_from(self.address, from, self.address, repaid as i128) {
            return Err(PoolError::Asset(e));
        }
        self.borrowed = self.borrowed - repaid;
        assert(self@ =~= (PoolState {
            borrowed: (old(self)@.borrowed - old(self)@.repaid(amount as int)) as nat,
            ..old(self)@
        }));
        Ok(repaid as i128)
    }

    /// Settles a delinquent loan out of `from`'s collateral: burns the shares
    /// that `amount + fee` converts to, shrinks the loan book by `amount` and
    /// pays `fee` to the credit ledger. Returns the value burned, `amount + fee`.
    pub fn repay_with_burn(
        &mut self,
        token: &mut UsdcToken,
        from: Address,
        amount: i128,
        fee: i128,
    ) -> (r: Result<i128, PoolError>)
        requires
            old(self).wf(),
            old(token).wf(),
        ensures
            final(self).wf(),
            final(token).wf(),
            took_joint_step(
                old(self)@.repay_with_burn(old(token)@, from, amount as int, fee as int),
                (amount + fee) as i128,
                old(self)@,
                final(self)@,
                old(token)@,
                final(token)@,
                r,
            ),
            final(self)@.index == old(self)@.index,
    {
        let bnpl_core = match self.bnpl_core {
            Some(bnpl_core) => bnpl_core,
            None => {
                return Err(PoolError::CreditLedgerNotSet);
            },
        };
        if amount < 0 || fee < 0 {
            return Err(PoolError::InvalidAmount);
        }
        let total = match amount.checked_add(fee) {
            Some(total) => total,
            None => {
                return Err(PoolError::Overflow);
            },
        };
        let burned = match self.plan_burn(from, total) {
            Ok(burned) => burned,
            Err(e) => {
                return Err(e);
            },
        };
        if fee > 0 {
            if let Err(e) = token.transfer(self.address, bnpl_core, fee) {
                return Err(PoolError::Asset(e));
            }
        }
        self.apply_burn(from, burned);
        let repaid: u128 = if amount as u128 > self.borrowed {
            self.borrowed
        } else {
            amount as u128
        };
        self.borrowed = self.borrowed - repaid;
        assert(self@ =~= (PoolState {
            borrowed: (old(self)@.borrowed - old(self)@.repaid(amount as int)) as nat,
            ..old(self)@.debited(from, burned as nat)
        }));
        Ok(total)
    }

    /// The share of the pool's assets that is lent out, in basis points.
    pub fn utilization_ratio(&self, token: &UsdcToken) -> (r: Result<u32, PoolError>)
        requires
            self.wf(),
            token.wf(),
        ensures
            match self@.utilization_ratio(token@.balances[self@.address] as int) {
                Ok(ratio) => r == Ok::<u32, PoolError>(ratio as u32) && 0 <= ratio <= BASIS_POINTS,
                Err(e) => r == Err::<u32, PoolError>(e),
            },
    {
        let underlying = token.balance(self.address);
        if underlying == 0 && self.borrowed == 0 {
            return Ok(0);
        }
        let scaled = match self.borrowed.checked_mul(BASIS_POINTS) {
            Some(scaled) => scaled,
            None => {
                return Err(PoolError::Overflow);
            },
        };
        let assets = underlying as u128 + self.borrowed;
        let ratio = scaled / assets;
        assert(ratio <= BASIS_POINTS) by (nonlinear_arith)
            requires
                ratio == scaled / assets,
                scaled == self.borrowed * BASIS_POINTS,
                self.borrowed <= assets,
                assets > 0,
        ;
        Ok(ratio as u32)
    }

    /// Mints the shares that `amount` converts to, to `to`, without a deposit.
    /// For the administrator.
    pub fn mint(&mut self, to: Address, amount: i128) -> (r: Result<(), PoolError>)
        requires
            old(self).wf(),
        ensures
            final(self).wf(),
            took_step(old(self)@.mint(to, amount as int), old(self)@, final(self)@, r),
    {
        if self.admin.is_none() {
            return Err(PoolError::NotInitialized);
        }
        if amount < 0 {
            return Err(PoolError::InvalidAmount);
        }
        match self.plan_mint(amount) {
            Err(e) => Err(e),
            Ok(minted) => {
                self.apply_mint(to, minted);
                Ok(())
            },
        }
    }

    /// Hands the shares that `amount` converts to from `from` to `to`.
    fn move_shares(&mut self, from: Address, to: Address, amount: i128)
        requires
            old(self).wf(),
            0 <= amount <= old(self)@.balance(from),
        ensures
            final(self).wf(),
            final(self)@ == old(self)@.moved(from, to, amount as int),
    {
        let shares = self.shares_within_balance(from, amount);
        proof {
            self.shares.lemma_amount_le_total(from);
            if from != to {
                self.shares.lemma_pair_le_total(from, to);
            }
        }
        let debited = self.shares.get(from) - shares;
        self.shares.set(from, debited);
        let credited = self.shares.get(to) + shares;
        self.shares.set(to, credited);
        proof {
            assert forall|a: Address| #[trigger] self@.shares[a] <= self@.supply by {
                self.shares.lemma_amount_le_total(a);
            }
            assert(self@ =~= old(self)@.moved(from, to, amount as int));
        }
    }

    /// Hands `amount` of `from`'s balance to `to`, out of what is not locked.
    pub fn transfer(&mut self, from: Address, to: Address, amount: i128, required_collateral: i128) -> (r:
        Result<(), PoolError>)
        requires
            old(self).wf(),
        ensures
            final(self).wf(),
            took_step(
                old(self)@.transfer(from, to, amount as int, required_collateral as int),
                old(self)@,
                final(self)@,
                r,
            ),
    {
        if amount < 0 {
            return Err(PoolError::InvalidAmount);
        }
        if amount > self.available_balance(from, required_collateral) {
            return Err(PoolError::InsufficientAvailableBalance);
        }
        self.move_shares(from, to, amount);
        Ok(())
    }

    /// Lets `spender` move up to `amount` of `from`'s balance. The pool keeps
    /// no expiry: `expiration_ledger` is accepted and not recorded.
    pub fn approve(&mut self, from: Address, spender: Address, amount: i128, expiration_ledger: u32)
        requires
            old(self).wf(),
        ensures
            final(self).wf(),
            final(self)@ == old(self)@.approve(from, spender, amount as int),
    {
        self.allowances.set(from, spender, amount);
        assert(self@ =~= old(self)@.approve(from, spender, amount as int));
    }

    /// What `spender` may move out of `from`'s balance.
    pub fn allowance(&self, from: Address, spender: Address) -> (a: i128)
        requires
            self.wf(),
        ensures
            a == self@.allowances[(from, spender)],
    {
        self.allowances.get(from, spender)
    }

    /// Hands `amount` of `from`'s balance to `to` on behalf of `spender`,
    /// against its allowance and out of what is not locked.
    pub fn transfer_from(
        &mut self,
        spender: Address,
        from: Address,
        to: Address,
        amount: i128,
        required_collateral: i128,
    ) -> (r: Result<(), PoolError>)
        requires
            old(self).wf(),
        ensures
            final(self).wf(),
            took_step(
                old(self)@.transfer_from(
                    spender,
                    from,
                    to,
                    amount as int,
                    required_collateral as int,
                ),
                old(self)@,
                final(self)@,
                r,
            ),
    {
        if amount < 0 {
            return Err(PoolError::InvalidAmount);
        }
        let allowance = self.allowances.get(from, spender);
        if allowance < amount {
            return Err(PoolError::AllowanceExceeded);
        }
        if amount > self.available_balance(from, required_collateral) {
            return Err(PoolError::InsufficientAvailableBalance);
        }
        self.allowances.set(from, spender, allowance - amount);
        assert(self@ =~= old(self)@.spent(spender, from, amount as int));
        self.move_shares(from, to, amount);
        Ok(())
    }

    /// Burns `amount` of `from`'s balance, out of what is not locked.
    pub fn burn(&mut self, from: Address, amount: i128, required_collateral: i128) -> (r: Result<
        (),
        PoolError,
    >)
        requires
            old(self).wf(),
        ensures
            final(self).wf(),
            took_step(
                old(self)@.burn(from, amount as int, required_collateral as int),
                old(self)@,
                final(self)@,
                r,
            ),
    {
        if amount < 0 {
            return Err(PoolError::InvalidAmount);
        }
        if amount > self.available_balance(from, required_collateral) {
            return Err(PoolError::InsufficientAvailableBalance);
        }
        let burned = self.shares_within_balance(from, amount);
        self.apply_burn(from, burned);
        Ok(())
    }

    /// Burns `amount` of `from`'s balance on behalf of `spender`, against its
    /// allowance and out of what is not locked.
    pub fn burn_from(&mut self, spender: Address, from: Address, amount: i128, required_collateral: i128) -> (r:
        Result<(), PoolError>)
        requires
            old(self).wf(),
        ensures
            final(self).wf(),
            took_step(
                old(self)@.burn_from(spender, from, amount as int, required_collateral as int),
                old(self)@,
                final(self)@,
                r,
            ),
    {
        if amount < 0 {
            return Err(PoolError::InvalidAmount);
        }
        if amount > self.available_balance(from, required_collateral) {
            return Err(PoolError::InsufficientAvailableBalance);
        }
        let allowance = self.allowances.get(from, spender);
        if allowance < amount {
            return Err(PoolError::AllowanceExceeded);
        }
        let burned = self.shares_within_balance(from, amount);
        self.allowances.set(from, spender, allowance - amount);
        assert(self@ =~= old(self)@.spent(spender, from, amount as int));
        self.apply_burn(from, burned);
        Ok(())
    }

    /// Number of decimals of the share token.
    pub fn decimals(&self) -> (d: u32)
        ensures
            d == SHARE_DECIMALS,
    {
        SHARE_DECIMALS
    }

    /// Name of the share token, once the pool is initialized.
    pub fn name(&self) -> (r: Option<&soroban_sdk::String>)
        ensures
            r == match self@.metadata {
                Some(m) => Some(&m.name),
                None => None,
            },
    {
        match &self.metadata {
            Some(m) => Some(&m.name),
            None => None,
        }
    }

    /// Symbol of the share token, once the pool is initialized.
    pub fn symbol(&self) -> (r: Option<&soroban_sdk::String>)
        ensures
            r == match self@.metadata {
                Some(m) => Some(&m.symbol),
                None => None,
            },
    {
        match &self.metadata {
            Some(m) => Some(&m.symbol),
            None => None,
        }
    }
}

} // verus!
