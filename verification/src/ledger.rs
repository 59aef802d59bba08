//! Sparse books of non-negative amounts keyed by account.
//!
//! A [`Ledger`] maps every account to an amount; accounts that were never
//! written hold zero. Besides the single entries it exposes the sum of all
//! entries, which the settlement asset ties to its total supply. The
//! settlement asset keeps its books in these; the pool keeps its own in maps
//! of the host, see [`crate::host_books`].

use std::collections::HashMap;
use vstd::prelude::*;
use vstd::std_specs::hash::*;

verus! {

broadcast use vstd::std_specs::hash::group_hash_axioms;

/// Identifier of an account (a user, a merchant or one of the ledgers).
pub type Address = u64;

/// Sum of the values of a finite map.
pub open spec fn map_sum(m: Map<u64, u128>) -> nat
    decreases m.dom().len(),
    when m.dom().finite()
{
    if m.dom().len() == 0 {
        0
    } else {
        let k = m.dom().choose();
        m[k] as nat + map_sum(m.remove(k))
    }
}

/// The sum can be unfolded at any key of the domain, not only at the chosen one.
pub proof fn lemma_map_sum_remove(m: Map<u64, u128>, k: u64)
    requires
        m.dom().finite(),
        m.dom().contains(k),
    ensures
        map_sum(m) == m[k] as nat + map_sum(m.remove(k)),
    decreases m.dom().len(),
{
    let c = m.dom().choose();
    assert(m.dom().len() != 0);
    if c != k {
        let mc = m.remove(c);
        let mk = m.remove(k);
        lemma_map_sum_remove(mc, k);
        lemma_map_sum_remove(mk, c);
        assert(mc.remove(k) =~= mk.remove(c));
    }
}

/// Writing one key changes the sum by the difference of the new and the old value.
pub proof fn lemma_map_sum_insert(m: Map<u64, u128>, k: u64, v: u128)
    requires
        m.dom().finite(),
    ensures
        map_sum(m.insert(k, v)) + (if m.dom().contains(k) { m[k] as nat } else { 0 })
            == map_sum(m) + v as nat,
{
    let mi = m.insert(k, v);
    lemma_map_sum_remove(mi, k);
    assert(mi.remove(k) =~= m.remove(k));
    if m.dom().contains(k) {
        lemma_map_sum_remove(m, k);
    } else {
        assert(m.remove(k) =~= m);
    }
}

/// A book of amounts: every account holds an amount, zero unless written.
pub struct Ledger {
    entries: HashMap<u64, u128>,
}

impl View for Ledger {
    type V = Map<u64, nat>;

    /// The amount of every account, as a total map.
    closed spec fn view(&self) -> Map<u64, nat> {
        Map::total(
            |k: u64|
                if self.entries@.dom().contains(k) {
                    self.entries@[k] as nat
                } else {
                    0nat
                },
        )
    }
}

impl Ledger {
    /// The sum of all amounts in the book.
    pub closed spec fn total(&self) -> nat {
        map_sum(self.entries@)
    }

    /// The view is total: every account has an amount.
    pub broadcast proof fn lemma_view_total(&self, k: u64)
        ensures
            #[trigger] self@.dom().contains(k),
            self@[k] <= u128::MAX,
    {
    }

    /// No single amount exceeds the sum of all amounts.
    pub proof fn lemma_amount_le_total(&self, k: u64)
        ensures
            self@[k] <= self.total(),
    {
        if self.entries@.dom().contains(k) {
            lemma_map_sum_remove(self.entries@, k);
        }
    }

    /// Two different accounts together hold no more than the sum of all amounts.
    pub proof fn lemma_pair_le_total(&self, j: u64, k: u64)
        requires
            j != k,
        ensures
            self@[j] + self@[k] <= self.total(),
    {
        let m = self.entries@;
        if m.dom().contains(j) {
            lemma_map_sum_remove(m, j);
            if m.dom().contains(k) {
                lemma_map_sum_remove(m.remove(j), k);
            }
        } else if m.dom().contains(k) {
            lemma_map_sum_remove(m, k);
        }
    }

    /// An empty book: every account holds zero.
    pub fn new() -> (l: Ledger)
        ensures
            l@ == Map::<u64, nat>::total(|k: u64| 0nat),
            l.total() == 0,
    {
        let l = Ledger { entries: HashMap::new() };
        assert(l@ =~= Map::<u64, nat>::total(|k: u64| 0nat));
        l
    }

    /// The amount held by `k`.
    pub fn get(&self, k: Address) -> (v: u128)
        ensures
            v == self@[k],
    {
        match self.entries.get(&k) {
            Some(v) => *v,
            None => 0,
        }
    }

    /// Sets the amount held by `k` to `v`.
    pub fn set(&mut self, k: Address, v: u128)
        ensures
            final(self)@ == old(self)@.insert(k, v as nat),
            final(self).total() + old(self)@[k] == old(self).total() + v,
    {
        proof {
            lemma_map_sum_insert(self.entries@, k, v);
        }
        self.entries.insert(k, v);
        assert(self@ =~= old(self)@.insert(k, v as nat));
    }

    /// A copy of the book with the same amounts.
    pub fn duplicate(&self) -> (l: Ledger)
        ensures
            l@ == self@,
            l.total() == self.total(),
    {
        let l = Ledger { entries: self.entries.clone() };
        assert(l@ =~= self@);
        l
    }
}


/// The key under which the allowance of `spender` over `owner`'s funds is filed.
pub open spec fn pair_key(owner: u64, spender: u64) -> u128 {
    (owner * 0x1_0000_0000_0000_0000 + spender) as u128
}

/// What each spender may move out of each owner's funds; zero unless written.
pub struct Allowances {
    entries: HashMap<u128, i128>,
}

impl View for Allowances {
    type V = Map<(u64, u64), int>;

    /// The allowance of every pair of owner and spender, as a total map.
    closed spec fn view(&self) -> Map<(u64, u64), int> {
        Map::total(
            |p: (u64, u64)|
                if self.entries@.dom().contains(pair_key(p.0, p.1)) {
                    self.entries@[pair_key(p.0, p.1)] as int
                } else {
                    0int
                },
        )
    }
}

impl Allowances {
    /// The view is total, and every allowance is a 128-bit signed amount.
    pub broadcast proof fn lemma_view_total(&self, owner: u64, spender: u64)
        ensures
            #[trigger] self@.dom().contains((owner, spender)),
            i128::MIN <= self@[(owner, spender)] <= i128::MAX,
    {
    }

    /// No allowance is granted.
    pub fn new() -> (a: Allowances)
        ensures
            a@ == Map::<(u64, u64), int>::total(|p: (u64, u64)| 0int),
    {
        let a = Allowances { entries: HashMap::new() };
        assert(a@ =~= Map::<(u64, u64), int>::total(|p: (u64, u64)| 0int));
        a
    }

    fn key(owner: Address, spender: Address) -> (k: u128)
        ensures
            k == pair_key(owner, spender),
    {
        let hi: u128 = owner as u128;
        let lo: u128 = spender as u128;
        hi * 0x1_0000_0000_0000_0000u128 + lo
    }

    /// What `spender` may move out of `owner`'s funds.
    pub fn get(&self, owner: Address, spender: Address) -> (v: i128)
        ensures
            v == self@[(owner, spender)],
    {
        let k = Self::key(owner, spender);
        match self.entries.get(&k) {
            Some(v) => *v,
            None => 0,
        }
    }

    /// Sets what `spender` may move out of `owner`'s funds to `v`.
    pub fn set(&mut self, owner: Address, spender: Address, v: i128)
        ensures
            final(self)@ == old(self)@.insert((owner, spender), v as int),
    {
        let k = Self::key(owner, spender);
        self.entries.insert(k, v);
        assert forall|p: (u64, u64)| p != (owner, spender) implies pair_key(p.0, p.1) != k by {}
        assert(self@ =~= old(self)@.insert((owner, spender), v as int));
    }

    /// A copy of the book with the same allowances.
    pub fn duplicate(&self) -> (a: Allowances)
        ensures
            a@ == self@,
    {
        let a = Allowances { entries: self.entries.clone() };
        assert(a@ =~= self@);
        a
    }
}

} // verus!
