//! The settlement asset: a fungible token with a daily mint limit per account.
//!
//! [`TokenState`] is the ledger as mathematics and says, operation by
//! operation, which state follows and which failure is reported.
//! [`UsdcToken`] is the executable ledger; each of its operations is proved to
//! take the step that [`TokenState`] describes, and to leave the ledger
//! untouched when it fails.

use crate::error::TokenError;
use crate::fees::SECONDS_PER_DAY;
use crate::ledger::{Address, Allowances, Ledger};
use crate::step::took_step;
use crate::types::TokenMetadata;
use vstd::prelude::*;

verus! {

broadcast use {Ledger::lemma_view_total, Allowances::lemma_view_total};

/// The asset ledger as mathematics.
pub struct TokenState {
    /// The administrator, once the ledger is initialized.
    pub admin: Option<Address>,
    /// Name, symbol and decimals, once the ledger is initialized.
    pub metadata: Option<TokenMetadata>,
    pub total_supply: int,
    /// What one account may mint per day.
    pub mint_limit: int,
    pub balances: Map<Address, nat>,
    /// Keyed by owner and spender.
    pub allowances: Map<(Address, Address), int>,
    /// The day of each account's last mint.
    pub last_mint_day: Map<Address, nat>,
    /// What each account minted on the day of its last mint.
    pub daily_minted: Map<Address, nat>,
}

impl TokenState {
    /// What every reachable state satisfies: amounts are within the range of
    /// a signed 128-bit amount, no account holds more than the total supply,
    /// and nothing exists before the ledger is initialized.
    pub open spec fn valid(self) -> bool {
        &&& 0 <= self.total_supply <= i128::MAX
        &&& i128::MIN <= self.mint_limit <= i128::MAX
        &&& self.admin is None ==> self.total_supply == 0
        &&& forall|k: Address| #[trigger] self.balances[k] <= self.total_supply
        &&& forall|k: Address| #[trigger] self.daily_minted[k] <= i128::MAX
    }

    /// What `who` has minted on `day` so far.
    pub open spec fn minted_on(self, who: Address, day: nat) -> nat {
        if self.last_mint_day[who] < day {
            0
        } else {
            self.daily_minted[who]
        }
    }

    /// `from` hands `amount` to `to`; sender and receiver may coincide.
    pub open spec fn moved(self, from: Address, to: Address, amount: int) -> Map<Address, nat> {
        let debited = self.balances.insert(from, (self.balances[from] - amount) as nat);
        debited.insert(to, (debited[to] + amount) as nat)
    }

    /// The ledger after `initialize`.
    pub open spec fn initialize(
        self,
        admin: Address,
        metadata: TokenMetadata,
        mint_limit: int,
    ) -> Result<TokenState, TokenError> {
        if self.admin is Some {
            Err(TokenError::AlreadyInitialized)
        } else {
            Ok(
                TokenState {
                    admin: Some(admin),
                    metadata: Some(metadata),
                    total_supply: 0,
                    mint_limit,
                    ..self
                },
            )
        }
    }

    /// The ledger after `to` mints `amount` at time `now`.
    pub open spec fn mint(self, to: Address, amount: int, now: nat) -> Result<
        TokenState,
        TokenError,
    > {
        let day = now / (SECONDS_PER_DAY as nat);
        let minted = self.minted_on(to, day);
        if amount <= 0 {
            Err(TokenError::AmountNotPositive)
        } else if self.admin is None {
            Err(TokenError::NotInitialized)
        } else if minted + amount > self.mint_limit {
            Err(TokenError::DailyMintLimitExceeded)
        } else if self.total_supply + amount > i128::MAX {
            Err(TokenError::Overflow)
        } else {
            Ok(
                TokenState {
                    last_mint_day: self.last_mint_day.insert(to, day),
                    daily_minted: self.daily_minted.insert(to, (minted + amount) as nat),
                    balances: self.balances.insert(to, (self.balances[to] + amount) as nat),
                    total_supply: self.total_supply + amount,
                    ..self
                },
            )
        }
    }

    /// The ledger after `from` burns `amount`.
    pub open spec fn burn(self, from: Address, amount: int) -> Result<TokenState, TokenError> {
        if amount <= 0 {
            Err(TokenError::AmountNotPositive)
        } else if self.balances[from] < amount {
            Err(TokenError::InsufficientBalance)
        } else {
            Ok(
                TokenState {
                    balances: self.balances.insert(from, (self.balances[from] - amount) as nat),
                    total_supply: self.total_supply - amount,
                    ..self
                },
            )
        }
    }

    /// The ledger after `spender` burns `amount` of `from`'s funds.
    pub open spec fn burn_from(self, spender: Address, from: Address, amount: int) -> Result<
        TokenState,
        TokenError,
    > {
        if amount <= 0 {
            Err(TokenError::AmountNotPositive)
        } else if self.allowances[(from, spender)] < amount {
            Err(TokenError::InsufficientAllowance)
        } else if self.balances[from] < amount {
            Err(TokenError::InsufficientBalance)
        } else {
            Ok(
                TokenState {
                    balances: self.balances.insert(from, (self.balances[from] - amount) as nat),
                    allowances: self.allowances.insert(
                        (from, spender),
                        self.allowances[(from, spender)] - amount,
                    ),
                    total_supply: self.total_supply - amount,
                    ..self
                },
            )
        }
    }

    /// The ledger after `from` transfers `amount` to `to`.
    pub open spec fn transfer(self, from: Address, to: Address, amount: int) -> Result<
        TokenState,
        TokenError,
    > {
        if amount <= 0 {
            Err(TokenError::AmountNotPositive)
        } else if self.balances[from] < amount {
            Err(TokenError::InsufficientBalance)
        } else {
            Ok(TokenState { balances: self.moved(from, to, amount), ..self })
        }
    }

    /// The ledger after `from` lets `spender` move up to `amount`.
    pub open spec fn approve(self, from: Address, spender: Address, amount: int) -> TokenState {
        TokenState { allowances: self.allowances.insert((from, spender), amount), ..self }
    }

    /// The ledger after `spender` transfers `amount` of `from`'s funds to `to`.
    pub open spec fn transfer_from(
        self,
        spender: Address,
        from: Address,
        to: Address,
        amount: int,
    ) -> Result<TokenState, TokenError> {
        if amount <= 0 {
            Err(TokenError::AmountNotPositive)
        } else if self.allowances[(from, spender)] < amount {
            Err(TokenError::InsufficientAllowance)
        } else if self.balances[from] < amount {
            Err(TokenError::InsufficientBalance)
        } else {
            Ok(
                TokenState {
                    balances: self.moved(from, to, amount),
                    allowances: self.allowances.insert(
                        (from, spender),
                        self.allowances[(from, spender)] - amount,
                    ),
                    ..self
                },
            )
        }
    }
}

/// The executable asset ledger.
pub struct UsdcToken {
    admin: Option<Address>,
    metadata: Option<TokenMetadata>,
    total_supply: i128,
    mint_limit: i128,
    balances: Ledger,
    allowances: Allowances,
    last_mint_day: Ledger,
    daily_minted: Ledger,
}

impl View for UsdcToken {
    type V = TokenState;

    closed spec fn view(&self) -> TokenState {
        TokenState {
            admin: self.admin,
            metadata: self.metadata,
            total_supply: self.total_supply as int,
            mint_limit: self.mint_limit as int,
            balances: self.balances@,
            allowances: self.allowances@,
            last_mint_day: self.last_mint_day@,
            daily_minted: self.daily_minted@,
        }
    }
}

impl UsdcToken {
    /// Whether the balances of all accounts add up to the total supply.
    pub closed spec fn balances_add_up(&self) -> bool {
        self.balances.total() == self.total_supply
    }

    /// The invariant of the ledger: its state is valid, and the balances add
    /// up to the total supply.
    pub open spec fn wf(&self) -> bool {
        self@.valid() && self.balances_add_up()
    }

    /// Restates for every account that it holds no more than all accounts together.
    proof fn lemma_balances_bounded(&self)
        requires
            self.balances_add_up(),
        ensures
            forall|k: Address| #[trigger] self@.balances[k] <= self@.total_supply,
    {
        assert forall|k: Address| #[trigger] self@.balances[k] <= self@.total_supply by {
            self.balances.lemma_amount_le_total(k);
        }
    }

    /// A ledger that is not initialized: no administrator, no funds.
    pub fn new() -> (t: UsdcToken)
        ensures
            t.wf(),
            t@.admin is None,
            t@.metadata is None,
            t@.total_supply == 0,
            t@.mint_limit == 0,
            t@.balances == Map::<Address, nat>::total(|k: Address| 0nat),
            t@.allowances == Map::<(Address, Address), int>::total(|p: (Address, Address)| 0int),
            t@.last_mint_day == Map::<Address, nat>::total(|k: Address| 0nat),
            t@.daily_minted == Map::<Address, nat>::total(|k: Address| 0nat),
    {
        UsdcToken {
            admin: None,
            metadata: None,
            total_supply: 0,
            mint_limit: 0,
            balances: Ledger::new(),
            allowances: Allowances::new(),
            last_mint_day: Ledger::new(),
            daily_minted: Ledger::new(),
        }
    }

    /// A copy of the ledger in the same state.
    pub fn duplicate(&self) -> (t: UsdcToken)
        requires
            self.wf(),
        ensures
            t.wf(),
            t@ == self@,
    {
        let metadata = match &self.metadata {
            Some(m) => Some(m.duplicate()),
            None => None,
        };
        UsdcToken {
            admin: self.admin,
            metadata,
            total_supply: self.total_supply,
            mint_limit: self.mint_limit,
            balances: self.balances.duplicate(),
            allowances: self.allowances.duplicate(),
            last_mint_day: self.last_mint_day.duplicate(),
            daily_minted: self.daily_minted.duplicate(),
        }
    }

    /// Sets administrator, metadata and mint limit; once only.
    pub fn initialize(
        &mut self,
        admin: Address,
        name: soroban_sdk::String,
        symbol: soroban_sdk::String,
        decimals: u32,
        mint_limit: i128,
    ) -> (r: Result<(), TokenError>)
        requires
            old(self).wf(),
        ensures
            final(self).wf(),
            took_step(
                old(self)@.initialize(
                    admin,
                    (TokenMetadata { decimal: decimals, name, symbol }),
                    mint_limit as int,
                ),
                old(self)@,
                final(self)@,
                r,
            ),
    {
        if self.admin.is_some() {
            return Err(TokenError::AlreadyInitialized);
        }
        self.admin = Some(admin);
        self.total_supply = 0;
        self.metadata = Some(TokenMetadata { decimal: decimals, name, symbol });
        self.mint_limit = mint_limit;
        Ok(())
    }

    /// Creates `amount` for `to`, within what `to` may mint on the day of `now`.
    pub fn mint(&mut self, to: Address, amount: i128, now: u64) -> (r: Result<(), TokenError>)
        requires
            old(self).wf(),
        ensures
            final(self).wf(),
            took_step(old(self)@.mint(to, amount as int, now as nat), old(self)@, final(self)@, r),
    {
        if amount <= 0 {
            return Err(TokenError::AmountNotPositive);
        }
        if self.admin.is_none() {
            return Err(TokenError::NotInitialized);
        }
        let day: u64 = now / SECONDS_PER_DAY;
        let last = self.last_mint_day.get(to);
        let minted: u128 = if last < day as u128 {
            0
        } else {
            self.daily_minted.get(to)
        };
        if self.mint_limit < 0 || minted + amount as u128 > self.mint_limit as u128 {
            return Err(TokenError::DailyMintLimitExceeded);
        }
        if amount > i128::MAX - self.total_supply {
            return Err(TokenError::Overflow);
        }
        proof {
            self.balances.lemma_amount_le_total(to);
        }
        let balance = self.balances.get(to);
        self.last_mint_day.set(to, day as u128);
        self.daily_minted.set(to, minted + amount as u128);
        self.balances.set(to, balance + amount as u128);
        self.total_supply = self.total_supply + amount;
        proof {
            self.lemma_balances_bounded();
        }
        assert(self@ =~= old(self)@.mint(to, amount as int, now as nat)->Ok_0);
        Ok(())
    }

    /// Destroys `amount` of `from`'s funds.
    pub fn burn(&mut self, from: Address, amount: i128) -> (r: Result<(), TokenError>)
        requires
            old(self).wf(),
        ensures
            final(self).wf(),
            took_step(old(self)@.burn(from, amount as int), old(self)@, final(self)@, r),
    {
        if amount <= 0 {
            return Err(TokenError::AmountNotPositive);
        }
        let balance = self.balances.get(from);
        if balance < amount as u128 {
            return Err(TokenError::InsufficientBalance);
        }
        proof {
            self.balances.lemma_amount_le_total(from);
        }
        self.balances.set(from, balance - amount as u128);
        self.total_supply = self.total_supply - amount;
        proof {
            self.lemma_balances_bounded();
        }
        assert(self@ =~= old(self)@.burn(from, amount as int)->Ok_0);
        Ok(())
    }

    /// Destroys `amount` of `from`'s funds on behalf of `spender`, against its allowance.
    pub fn burn_from(&mut self, spender: Address, from: Address, amount: i128) -> (r: Result<
        (),
        TokenError,
    >)
        requires
            old(self).wf(),
        ensures
            final(self).wf(),
            took_step(
                old(self)@.burn_from(spender, from, amount as int),
                old(self)@,
                final(self)@,
                r,
            ),
    {
        if amount <= 0 {
            return Err(TokenError::AmountNotPositive);
        }
        let allowance = self.allowances.get(from, spender);
        if allowance < amount {
            return Err(TokenError::InsufficientAllowance);
        }
        let balance = self.balances.get(from);
        if balance < amount as u128 {
            return Err(TokenError::InsufficientBalance);
        }
        proof {
            self.balances.lemma_amount_le_total(from);
        }
        self.balances.set(from, balance - amount as u128);
        self.allowances.set(from, spender, allowance - amount);
        self.total_supply = self.total_supply - amount;
        proof {
            self.lemma_balances_bounded();
        }
        assert(self@ =~= old(self)@.burn_from(spender, from, amount as int)->Ok_0);
        Ok(())
    }

    /// What `id` holds.
    pub fn balance(&self, id: Address) -> (b: i128)
        requires
            self.wf(),
        ensures
            b == self@.balances[id],
    {
        proof {
            self.balances.lemma_amount_le_total(id);
        }
        self.balances.get(id) as i128
    }

    fn move_funds(&mut self, from: Address, to: Address, amount: i128)
        requires
            old(self).wf(),
            0 < amount <= old(self)@.balances[from],
        ensures
            final(self).wf(),
            final(self)@ == (TokenState {
                balances: old(self)@.moved(from, to, amount as int),
                ..old(self)@
            }),
    {
        proof {
            self.balances.lemma_amount_le_total(from);
            if from != to {
                self.balances.lemma_pair_le_total(from, to);
            }
        }
        let debited = self.balances.get(from) - amount as u128;
        self.balances.set(from, debited);
        let credited = self.balances.get(to) + amount as u128;
        self.balances.set(to, credited);
        proof {
            self.lemma_balances_bounded();
        }
        assert(self@ =~= (TokenState {
            balances: old(self)@.moved(from, to, amount as int),
            ..old(self)@
        }));
    }

    /// Moves `amount` from `from` to `to`.
    pub fn transfer(&mut self, from: Address, to: Address, amount: i128) -> (r: Result<
        (),
        TokenError,
    >)
        requires
            old(self).wf(),
        ensures
            final(self).wf(),
            took_step(
                old(self)@.transfer(from, to, amount as int),
                old(self)@,
                final(self)@,
                r,
            ),
    {
        if amount <= 0 {
            return Err(TokenError::AmountNotPositive);
        }
        if self.balances.get(from) < amount as u128 {
            return Err(TokenError::InsufficientBalance);
        }
        self.move_funds(from, to, amount);
        Ok(())
    }

    /// Lets `spender` move up to `amount` of `from`'s funds. The asset keeps
    /// no expiry: `expiration_ledger` is accepted and not recorded.
    pub fn approve(&mut self, from: Address, spender: Address, amount: i128, expiration_ledger: u32)
        requires
            old(self).wf(),
        ensures
            final(self).wf(),
            final(self)@ == old(self)@.approve(from, spender, amount as int),
    {
        self.allowances.set(from, spender, amount);
        assert(self@ =~= old(self)@.approve(from, spender, amount as int));
    }

    /// What `spender` may move out of `from`'s funds.
    pub fn allowance(&self, from: Address, spender: Address) -> (a: i128)
        ensures
            a == self@.allowances[(from, spender)],
    {
        self.allowances.get(from, spender)
    }

    /// Moves `amount` of `from`'s funds to `to` on behalf of `spender`, against its allowance.
    pub fn transfer_from(&mut self, spender: Address, from: Address, to: Address, amount: i128) -> (r:
        Result<(), TokenError>)
        requires
            old(self).wf(),
        ensures
            final(self).wf(),
            took_step(
                old(self)@.transfer_from(spender, from, to, amount as int),
                old(self)@,
                final(self)@,
                r,
            ),
    {
        if amount <= 0 {
            return Err(TokenError::AmountNotPositive);
        }
        let allowance = self.allowances.get(from, spender);
        if allowance < amount {
            return Err(TokenError::InsufficientAllowance);
        }
        if self.balances.get(from) < amount as u128 {
            return Err(TokenError::InsufficientBalance);
        }
        self.move_funds(from, to, amount);
        self.allowances.set(from, spender, allowance - amount);
        proof {
            self.lemma_balances_bounded();
        }
        assert(self@ =~= old(self)@.transfer_from(spender, from, to, amount as int)->Ok_0);
        Ok(())
    }

    /// The administrator, once the ledger is initialized.
    pub fn admin(&self) -> (a: Option<Address>)
        ensures
            a == self@.admin,
    {
        self.admin
    }

    /// The sum of all balances.
    pub fn total_supply(&self) -> (s: i128)
        ensures
            s == self@.total_supply,
    {
        self.total_supply
    }

    /// The token's name, once the ledger is initialized.
    pub fn name(&self) -> (r: Option<&soroban_sdk::String>)
        ensures
            r == match self@.metadata {
                Some(m) => Some(&m.name),
                None => None,
            },
    {
        match &self.metadata {
            Some(m) => Some(&m.name),
            None => None,
        }
    }

    /// The token's symbol, once the ledger is initialized.
    pub fn symbol(&self) -> (r: Option<&soroban_sdk::String>)
        ensures
            r == match self@.metadata {
                Some(m) => Some(&m.symbol),
                None => None,
            },
    {
        match &self.metadata {
            Some(m) => Some(&m.symbol),
            None => None,
        }
    }

    /// The token's number of decimals, once the ledger is initialized.
    pub fn decimals(&self) -> (r: Option<u32>)
        ensures
            r == match self@.metadata {
                Some(m) => Some(m.decimal),
                None => None,
            },
    {
        match &self.metadata {
            Some(m) => Some(m.decimal),
            None => None,
        }
    }

    /// What one account may mint per day, once the ledger is initialized.
    pub fn get_mint_limit(&self) -> (r: Option<i128>)
        ensures
            r == (if self@.admin is Some {
                Some(self.spec_mint_limit())
            } else {
                None
            }),
    {
        if self.admin.is_some() {
            Some(self.mint_limit)
        } else {
            None
        }
    }

    /// The mint limit as an executable amount.
    pub closed spec fn spec_mint_limit(&self) -> i128 {
        self.mint_limit
    }

    /// What `address` has minted so far on the day of `now`.
    pub fn get_daily_minted(&self, address: Address, now: u64) -> (m: i128)
        requires
            self.wf(),
        ensures
            m == self@.minted_on(address, (now / SECONDS_PER_DAY) as nat),
    {
        let day: u64 = now / SECONDS_PER_DAY;
        if self.last_mint_day.get(address) < day as u128 {
            0
        } else {
            self.daily_minted.get(address) as i128
        }
    }
}

} // verus!
