//! The values of `soroban_sdk` that the ledgers hold, and what is taken on
//! trust about them.
//!
//! Nothing in this file is proved: the contracts below are believed of
//! `soroban_sdk`. Every `soroban_sdk` value is a handle into the host that
//! runs a contract; the host meters each call and aborts the process once its
//! budget is spent. The contracts say what a call returns when it returns.

use vstd::prelude::*;

verus! {

/// `soroban_sdk::Env`, the handle to the host. Opaque here: it is only handed
/// on to the calls that create values.
#[verifier::external_type_specification]
#[verifier::external_body]
pub struct ExEnv(soroban_sdk::Env);

/// `soroban_sdk::String`, a text kept by the host. Opaque here: order and
/// profile references and token names are carried through, never read.
#[verifier::external_type_specification]
#[verifier::external_body]
pub struct ExHostString(soroban_sdk::String);

/// `soroban_sdk::Vec<T>`, a list kept by the host.
#[verifier::external_type_specification]
#[verifier::external_body]
#[verifier::reject_recursive_types(T)]
pub struct ExHostVec<T>(soroban_sdk::Vec<T>);

/// `soroban_sdk::Map<K, V>`, a map kept by the host.
#[verifier::external_type_specification]
#[verifier::external_body]
#[verifier::reject_recursive_types(K)]
#[verifier::reject_recursive_types(V)]
pub struct ExHostMap<K, V>(soroban_sdk::Map<K, V>);

/// The bill ids that a list holds, first to last.
pub uninterp spec fn id_list(v: soroban_sdk::Vec<u64>) -> Seq<u64>;

/// Whether every item of the list converts back to a `u64`. The host does not
/// check the items of a list that it is handed from outside; the lists made
/// by `new_id_list` and `push_id` hold nothing else.
pub uninterp spec fn ids_well_typed(v: soroban_sdk::Vec<u64>) -> bool;

/// `soroban_sdk::Vec::<u64>::new`: claims that the list it makes is empty.
#[verifier::external_body]
pub(crate) fn new_id_list(env: &soroban_sdk::Env) -> (v: soroban_sdk::Vec<u64>)
    ensures
        id_list(v) == Seq::<u64>::empty(),
        ids_well_typed(v),
{
    soroban_sdk::Vec::new(env)
}

/// `soroban_sdk::Vec::<u64>::len`: claims that it returns the number of items.
#[verifier::external_body]
pub(crate) fn id_count(v: &soroban_sdk::Vec<u64>) -> (n: u32)
    ensures
        n == id_list(*v).len(),
{
    v.len()
}

/// `soroban_sdk::Vec::<u64>::get`: claims that it returns the item at position
/// `i`, and nothing past the end. It panics on an item that is no `u64`, which
/// the precondition rules out.
#[verifier::external_body]
pub(crate) fn id_at(v: &soroban_sdk::Vec<u64>, i: u32) -> (r: Option<u64>)
    requires
        ids_well_typed(*v),
    ensures
        r == (if i < id_list(*v).len() {
            Some(id_list(*v)[i as int])
        } else {
            None
        }),
{
    v.get(i)
}

/// `soroban_sdk::Vec::<u64>::push_back`: claims that it appends `id` and keeps
/// the items before it. The host refuses a list of `u32::MAX` items, which the
/// precondition rules out.
#[verifier::external_body]
pub(crate) fn push_id(v: &mut soroban_sdk::Vec<u64>, id: u64)
    requires
        ids_well_typed(*old(v)),
        id_list(*old(v)).len() < u32::MAX,
    ensures
        id_list(*final(v)) == id_list(*old(v)).push(id),
        ids_well_typed(*final(v)),
{
    v.push_back(id)
}

/// `<soroban_sdk::String as Clone>::clone`: claims that the copy is the same
/// text as the one copied.
pub assume_specification[ <soroban_sdk::String as Clone>::clone ](
    s: &soroban_sdk::String,
) -> (c: soroban_sdk::String)
    ensures
        c == *s,
;

/// The shares that a map holds for the accounts it has an entry for.
pub uninterp spec fn share_map(m: soroban_sdk::Map<u64, u128>) -> Map<u64, u128>;

/// Whether every key of the map converts back to a `u64` and every value to a
/// `u128`. The host does not check the entries of a map that it is handed from
/// outside; the maps made by `new_share_map` and `put_share` hold nothing else.
pub uninterp spec fn shares_well_typed(m: soroban_sdk::Map<u64, u128>) -> bool;

/// `soroban_sdk::Map::<u64, u128>::new`: claims that the map it makes is empty.
#[verifier::external_body]
pub(crate) fn new_share_map(env: &soroban_sdk::Env) -> (m: soroban_sdk::Map<u64, u128>)
    ensures
        share_map(m).is_empty(),
        shares_well_typed(m),
{
    soroban_sdk::Map::new(env)
}

/// `soroban_sdk::Map::<u64, u128>::get`: claims that it returns the value
/// under `account`, and nothing where the map has no such key. It panics on a
/// value that is no `u128`, which the precondition rules out.
#[verifier::external_body]
pub(crate) fn share_of(m: &soroban_sdk::Map<u64, u128>, account: u64) -> (r: Option<u128>)
    requires
        shares_well_typed(*m),
    ensures
        r == (if share_map(*m).dom().contains(account) {
            Some(share_map(*m)[account])
        } else {
            None
        }),
{
    m.get(account)
}

/// `soroban_sdk::Map::<u64, u128>::set`: claims that it puts `shares` under
/// `account`, in place of what was under that key, and keeps every other entry.
#[verifier::external_body]
pub(crate) fn put_share(m: &mut soroban_sdk::Map<u64, u128>, account: u64, shares: u128)
    requires
        shares_well_typed(*old(m)),
    ensures
        share_map(*final(m)) == share_map(*old(m)).insert(account, shares),
        shares_well_typed(*final(m)),
{
    m.set(account, shares)
}

/// The allowances that a map holds for the pairs of owner and spender it has
/// an entry for.
pub uninterp spec fn allowance_map(m: soroban_sdk::Map<(u64, u64), i128>) -> Map<(u64, u64), i128>;

/// Whether every key of the map converts back to a pair of `u64` and every
/// value to an `i128`; the maps made by `new_allowance_map` and
/// `put_allowance` hold nothing else.
pub uninterp spec fn allowances_well_typed(m: soroban_sdk::Map<(u64, u64), i128>) -> bool;

/// `soroban_sdk::Map::<(u64, u64), i128>::new`: claims that the map it makes is empty.
#[verifier::external_body]
pub(crate) fn new_allowance_map(env: &soroban_sdk::Env) -> (m: soroban_sdk::Map<(u64, u64), i128>)
    ensures
        allowance_map(m).is_empty(),
        allowances_well_typed(m),
{
    soroban_sdk::Map::new(env)
}

/// `soroban_sdk::Map::<(u64, u64), i128>::get`: claims that it returns the
/// value under the pair, and nothing where the map has no such key. It panics
/// on a value that is no `i128`, which the precondition rules out.
#[verifier::external_body]
pub(crate) fn allowance_of(m: &soroban_sdk::Map<(u64, u64), i128>, owner: u64, spender: u64) -> (r:
    Option<i128>)
    requires
        allowances_well_typed(*m),
    ensures
        r == (if allowance_map(*m).dom().contains((owner, spender)) {
            Some(allowance_map(*m)[(owner, spender)])
        } else {
            None
        }),
{
    m.get((owner, spender))
}

/// `soroban_sdk::Map::<(u64, u64), i128>::set`: claims that it puts `amount`
/// under the pair, in place of what was under that key, and keeps every other entry.
#[verifier::external_body]
pub(crate) fn put_allowance(
    m: &mut soroban_sdk::Map<(u64, u64), i128>,
    owner: u64,
    spender: u64,
    amount: i128,
)
    requires
        allowances_well_typed(*old(m)),
    ensures
        allowance_map(*final(m)) == allowance_map(*old(m)).insert((owner, spender), amount),
        allowances_well_typed(*final(m)),
{
    m.set((owner, spender), amount)
}

/// `<soroban_sdk::Map<K, V> as Clone>::clone`: claims that the copy is the
/// same map as the one copied.
pub assume_specification<K: Clone, V: Clone>[ <soroban_sdk::Map<K, V> as Clone>::clone ](
    m: &soroban_sdk::Map<K, V>,
) -> (c: soroban_sdk::Map<K, V>)
    ensures
        c == *m,
;

} // verus!
