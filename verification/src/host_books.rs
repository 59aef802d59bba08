//! The books of the pool, kept in maps of the host.
//!
//! [`ShareBook`] holds the shares of every account, [`AllowanceBook`] what
//! each spender may move of each owner's balance. Both are total: an account
//! or a pair without an entry holds zero. A host map is a value: a copy costs
//! nothing and stays as it is when the book it was taken from changes.

use crate::host::{
    allowance_map, allowance_of, allowances_well_typed, new_allowance_map, new_share_map,
    put_allowance, put_share, share_map, share_of, shares_well_typed,
};
use crate::ledger::{lemma_map_sum_insert, lemma_map_sum_remove, map_sum, Address};
use vstd::prelude::*;

verus! {

/// The shares of every account; zero unless written.
pub struct ShareBook {
    entries: soroban_sdk::Map<u64, u128>,
}

impl View for ShareBook {
    type V = Map<u64, nat>;

    /// The shares of every account, as a total map.
    closed spec fn view(&self) -> Map<u64, nat> {
        Map::total(
            |k: u64|
                if share_map(self.entries).dom().contains(k) {
                    share_map(self.entries)[k] as nat
                } else {
                    0nat
                },
        )
    }
}

impl ShareBook {
    /// The invariant of the book: it has finitely many entries, and they are
    /// accounts and shares.
    pub closed spec fn wf(&self) -> bool {
        share_map(self.entries).dom().finite() && shares_well_typed(self.entries)
    }

    /// The sum of the shares of all accounts.
    pub closed spec fn total(&self) -> nat {
        map_sum(share_map(self.entries))
    }

    /// The view is total: every account has an amount.
    pub broadcast proof fn lemma_view_total(&self, k: u64)
        ensures
            #[trigger] self@.dom().contains(k),
            self@[k] <= u128::MAX,
    {
    }

    /// No account holds more than all accounts together.
    pub proof fn lemma_amount_le_total(&self, k: u64)
        requires
            self.wf(),
        ensures
            self@[k] <= self.total(),
    {
        if share_map(self.entries).dom().contains(k) {
            lemma_map_sum_remove(share_map(self.entries), k);
        }
    }

    /// Two different accounts together hold no more than all accounts together.
    pub proof fn lemma_pair_le_total(&self, j: u64, k: u64)
        requires
            self.wf(),
            j != k,
        ensures
            self@[j] + self@[k] <= self.total(),
    {
        let m = share_map(self.entries);
        if m.dom().contains(j) {
            lemma_map_sum_remove(m, j);
            if m.dom().contains(k) {
                lemma_map_sum_remove(m.remove(j), k);
            }
        } else if m.dom().contains(k) {
            lemma_map_sum_remove(m, k);
        }
    }

    /// An empty book: every account holds zero.
    pub fn new(env: &soroban_sdk::Env) -> (b: ShareBook)
        ensures
            b.wf(),
            b@ == Map::<u64, nat>::total(|k: u64| 0nat),
            b.total() == 0,
    {
        let b = ShareBook { entries: new_share_map(env) };
        assert(b@ =~= Map::<u64, nat>::total(|k: u64| 0nat));
        b
    }

    /// The shares of `k`.
    pub fn get(&self, k: Address) -> (v: u128)
        requires
            self.wf(),
        ensures
            v == self@[k],
    {
        match share_of(&self.entries, k) {
            Some(v) => v,
            None => 0,
        }
    }

    /// Sets the shares of `k` to `v`.
    pub fn set(&mut self, k: Address, v: u128)
        requires
            old(self).wf(),
        ensures
            final(self).wf(),
            final(self)@ == old(self)@.insert(k, v as nat),
            final(self).total() + old(self)@[k] == old(self).total() + v,
    {
        proof {
            lemma_map_sum_insert(share_map(self.entries), k, v);
        }
        put_share(&mut self.entries, k, v);
        assert(self@ =~= old(self)@.insert(k, v as nat));
    }

    /// A copy of the book with the same shares.
    pub fn duplicate(&self) -> (b: ShareBook)
        requires
            self.wf(),
        ensures
            b.wf(),
            b@ == self@,
            b.total() == self.total(),
    {
        ShareBook { entries: self.entries.clone() }
    }
}

/// What each spender may move of each owner's balance; zero unless written.
pub struct AllowanceBook {
    entries: soroban_sdk::Map<(u64, u64), i128>,
}

impl View for AllowanceBook {
    type V = Map<(u64, u64), int>;

    /// The allowance of every pair of owner and spender, as a total map.
    closed spec fn view(&self) -> Map<(u64, u64), int> {
        Map::total(
            |p: (u64, u64)|
                if allowance_map(self.entries).dom().contains(p) {
                    allowance_map(self.entries)[p] as int
                } else {
                    0int
                },
        )
    }
}

impl AllowanceBook {
    /// The invariant of the book: its entries are pairs of accounts and amounts.
    pub closed spec fn wf(&self) -> bool {
        allowances_well_typed(self.entries)
    }

    /// The view is total, and every allowance is a 128-bit signed amount.
    pub broadcast proof fn lemma_view_total(&self, owner: u64, spender: u64)
        ensures
            #[trigger] self@.dom().contains((owner, spender)),
            i128::MIN <= self@[(owner, spender)] <= i128::MAX,
    {
    }

    /// No allowance is granted.
    pub fn new(env: &soroban_sdk::Env) -> (a: AllowanceBook)
        ensures
            a.wf(),
            a@ == Map::<(u64, u64), int>::total(|p: (u64, u64)| 0int),
    {
        let a = AllowanceBook { entries: new_allowance_map(env) };
        assert(a@ =~= Map::<(u64, u64), int>::total(|p: (u64, u64)| 0int));
        a
    }

    /// What `spender` may move of `owner`'s balance.
    pub fn get(&self, owner: Address, spender: Address) -> (v: i128)
        requires
            self.wf(),
        ensures
            v == self@[(owner, spender)],
    {
        match allowance_of(&self.entries, owner, spender) {
            Some(v) => v,
            None => 0,
        }
    }

    /// Sets what `spender` may move of `owner`'s balance to `v`.
    pub fn set(&mut self, owner: Address, spender: Address, v: i128)
        requires
            old(self).wf(),
        ensures
            final(self).wf(),
            final(self)@ == old(self)@.insert((owner, spender), v as int),
    {
        put_allowance(&mut self.entries, owner, spender, v);
        assert(self@ =~= old(self)@.insert((owner, spender), v as int));
    }

    /// A copy of the book with the same allowances.
    pub fn duplicate(&self) -> (a: AllowanceBook)
        requires
            self.wf(),
        ensures
            a.wf(),
            a@ == self@,
    {
        AllowanceBook { entries: self.entries.clone() }
    }
}

} // verus!
