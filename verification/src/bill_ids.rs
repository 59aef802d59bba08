//! Lists of bill ids: the open bills of a user, kept as `soroban_sdk::Vec<u64>`.
//!
//! The functions here are verified against what [`crate::host`] states of the
//! host's lists.

use crate::host::{id_at, id_count, id_list, ids_well_typed, new_id_list, push_id};
use vstd::prelude::*;

verus! {

/// A new list with the ids of `v`, in their order.
pub(crate) fn copy_ids(env: &soroban_sdk::Env, v: &soroban_sdk::Vec<u64>) -> (out: soroban_sdk::Vec<u64>)
    requires
        ids_well_typed(*v),
    ensures
        id_list(out) == id_list(*v),
        ids_well_typed(out),
{
    let mut out = new_id_list(env);
    let n = id_count(v);
    let mut i: u32 = 0;
    let ghost s = id_list(*v);
    proof {
        assert(s.subrange(0, 0) =~= Seq::<u64>::empty());
    }
    while i < n
        invariant
            i <= n,
            n == s.len(),
            s == id_list(*v),
            ids_well_typed(*v),
            ids_well_typed(out),
            id_list(out) == s.subrange(0, i as int),
        decreases n - i,
    {
        let item = id_at(v, i);
        proof {
            assert(s.subrange(0, i + 1) =~= s.subrange(0, i as int).push(s[i as int]));
        }
        if let Some(x) = item {
            push_id(&mut out, x);
        }
        i += 1;
    }
    proof {
        assert(s.subrange(0, n as int) =~= s);
    }
    out
}

/// The test that an id is another one than `id`.
pub open spec fn other_than(id: u64) -> spec_fn(u64) -> bool {
    |x: u64| x != id
}

/// A new list with the ids of `v` except `id`, in their order.
pub(crate) fn without_id(env: &soroban_sdk::Env, v: &soroban_sdk::Vec<u64>, id: u64) -> (out:
    soroban_sdk::Vec<u64>)
    requires
        ids_well_typed(*v),
    ensures
        id_list(out) == id_list(*v).filter(other_than(id)),
        ids_well_typed(out),
{
    let mut out = new_id_list(env);
    let n = id_count(v);
    let mut i: u32 = 0;
    let ghost s = id_list(*v);
    let ghost keep = other_than(id);
    proof {
        reveal(Seq::filter);
        assert(s.subrange(0, 0) =~= Seq::<u64>::empty());
    }
    while i < n
        invariant
            i <= n,
            n == s.len(),
            s == id_list(*v),
            keep == other_than(id),
            ids_well_typed(*v),
            ids_well_typed(out),
            id_list(out) == s.subrange(0, i as int).filter(keep),
        decreases n - i,
    {
        let item = id_at(v, i);
        proof {
            assert(s.subrange(0, i + 1) =~= s.subrange(0, i as int).push(s[i as int]));
            s.subrange(0, i as int).lemma_filter_push(s[i as int], keep);
            s.subrange(0, i as int).lemma_filter_len(keep);
        }
        if let Some(x) = item {
            if x != id {
                push_id(&mut out, x);
            }
        }
        i += 1;
    }
    proof {
        assert(s.subrange(0, n as int) =~= s);
    }
    out
}

} // verus!
