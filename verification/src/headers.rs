//! Header normalization: inbound header name/value pairs become a table
//! keyed by the lower-cased name, each key holding its values in receipt
//! order. Access by name and position reads a missing name or position as
//! the empty string.

use vstd::prelude::*;

use crate::table::{accumulated_lookup, pairs_values, MultiValueTable};
use crate::text::{lower_of, lowercase};

verus! {

/// The views of a vector of name/value string pairs.
pub open spec fn pairs_view(pairs: Seq<(String, String)>) -> Seq<(Seq<char>, Seq<char>)> {
    Seq::new(pairs.len(), |i: int| (pairs[i].0@, pairs[i].1@))
}

/// The same pairs with every name lower-cased.
pub open spec fn lowered_pairs(pairs: Seq<(Seq<char>, Seq<char>)>) -> Seq<(Seq<char>, Seq<char>)> {
    pairs.map_values(|p: (Seq<char>, Seq<char>)| (lower_of(p.0), p.1))
}

/// Build the normalized header table from header pairs in receipt order.
pub fn to_header_table(header_pairs: &Vec<(String, String)>) -> (r: MultiValueTable)
    ensures
        r.wf(),
        forall|k: Seq<char>| #[trigger] r.lookup(k) == accumulated_lookup(
            lowered_pairs(pairs_view(header_pairs@)),
            k,
        ),
{
    let ghost all = lowered_pairs(pairs_view(header_pairs@));
    let mut result = MultiValueTable::new();
    let n = header_pairs.len();
    let mut i: usize = 0;
    proof {
        assert(all.subrange(0, 0) =~= Seq::empty());
    }
    while i < n
        invariant
            n == header_pairs@.len(),
            all == lowered_pairs(pairs_view(header_pairs@)),
            all.len() == n,
            i <= n,
            result.wf(),
            forall|k: Seq<char>| #[trigger] result.lookup(k) == accumulated_lookup(
                all.subrange(0, i as int),
                k,
            ),
        decreases n - i,
    {
        let name = lowercase(header_pairs[i].0.as_str());
        let value = header_pairs[i].1.clone();
        let ghost pair = (name@, value@);
        proof {
            assert(all[i as int] == pair);
        }
        let ghost old_table = result;
        result.append(name, value);
        proof {
            crate::table::lemma_accumulate_step(
                old_table,
                result,
                all.subrange(0, i as int),
                pair,
            );
            assert(all.subrange(0, i as int).push(pair) =~= all.subrange(0, i + 1));
        }
        i = i + 1;
    }
    proof {
        assert(all.subrange(0, n as int) =~= all);
    }
    result
}

/// The value of `header_name` at position `index_of_value` in a header
/// table, or the empty string when the name or the position is absent.
pub fn get_header_value(
    header_name: &str,
    index_of_value: usize,
    headers: &MultiValueTable,
) -> (r: String)
    ensures
        r@ == headers.value_at(header_name@, index_of_value as int),
{
    headers.value_at_index(header_name, index_of_value)
}

/// A key's values are present exactly when some pair's key matches it.
pub proof fn lemma_pairs_values_nonempty(pairs: Seq<(Seq<char>, Seq<char>)>, k: Seq<char>)
    ensures
        pairs_values(pairs, k).len() > 0 <==> exists|i: int|
            0 <= i < pairs.len() && (#[trigger] pairs[i]).0 == k,
    decreases pairs.len(),
{
    if pairs.len() > 0 {
        lemma_pairs_values_nonempty(pairs.drop_last(), k);
        if pairs.last().0 == k {
            assert(pairs[pairs.len() - 1].0 == k);
        } else {
            if exists|i: int| 0 <= i < pairs.len() && (#[trigger] pairs[i]).0 == k {
                let i = choose|i: int| 0 <= i < pairs.len() && (#[trigger] pairs[i]).0 == k;
                assert(pairs[pairs.len() - 1] == pairs.last());
                assert(i < pairs.len() - 1);
                assert(pairs.drop_last()[i] == pairs[i]);
            }
        }
    }
}

/// Law: in a normalized header table every stored name is the lower-cased
/// form of some received name, a name is stored exactly when some received
/// pair lower-cases to it, and its stored values are the received values of
/// exactly those pairs, in receipt order.
pub proof fn lemma_header_normalization(
    t: MultiValueTable,
    pairs: Seq<(Seq<char>, Seq<char>)>,
    k: Seq<char>,
)
    requires
        forall|k2: Seq<char>| #[trigger] t.lookup(k2) == accumulated_lookup(
            lowered_pairs(pairs),
            k2,
        ),
    ensures
        t.lookup(k) is Some <==> exists|i: int|
            0 <= i < pairs.len() && lower_of((#[trigger] pairs[i]).0) == k,
        t.lookup(k) is Some ==> t.values_of(k) == pairs_values(lowered_pairs(pairs), k),
{
    let lowered = lowered_pairs(pairs);
    lemma_pairs_values_nonempty(lowered, k);
    assert(t.lookup(k) == accumulated_lookup(lowered, k));
    assert forall|i: int| 0 <= i < pairs.len() implies (#[trigger] lowered[i]).0 == lower_of(
        pairs[i].0,
    ) && lowered[i].1 == pairs[i].1 by {}
    if exists|i: int| 0 <= i < pairs.len() && lower_of((#[trigger] pairs[i]).0) == k {
        let i = choose|i: int| 0 <= i < pairs.len() && lower_of((#[trigger] pairs[i]).0) == k;
        assert(lowered[i].0 == k);
    }
    if exists|i: int| 0 <= i < lowered.len() && (#[trigger] lowered[i]).0 == k {
        let i = choose|i: int| 0 <= i < lowered.len() && (#[trigger] lowered[i]).0 == k;
        assert(lower_of(pairs[i].0) == k);
    }
}

} // verus!
