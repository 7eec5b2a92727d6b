//! Sequences of pairs read as mappings: what a list of keyed entries
//! stands for, and how changes to the list show in the mapping.

use vstd::prelude::*;

verus! {

/// No key occurs at two places of `pairs`.
pub open spec fn distinct_keys<K, V>(pairs: Seq<(K, V)>) -> bool {
    forall|i: int, j: int| 0 <= i < j < pairs.len() ==> pairs[i].0 != pairs[j].0
}

/// Some pair of `pairs` has the key `key`.
pub open spec fn has_key<K, V>(pairs: Seq<(K, V)>, key: K) -> bool {
    exists|i: int| 0 <= i < pairs.len() && #[trigger] pairs[i].0 == key
}

/// The mapping that `pairs` stands for: each pair binds its key, and a later
/// pair replaces an earlier one with the same key.
pub open spec fn pairs_map<K, V>(pairs: Seq<(K, V)>) -> Map<K, V>
    decreases pairs.len(),
{
    if pairs.len() == 0 {
        Map::empty()
    } else {
        pairs_map(pairs.drop_last()).insert(pairs.last().0, pairs.last().1)
    }
}

/// A key is bound in the mapping exactly when some pair has it.
pub proof fn lemma_pairs_map_keys<K, V>(pairs: Seq<(K, V)>, key: K)
    ensures
        pairs_map(pairs).contains_key(key) <==> has_key(pairs, key),
        pairs_map(pairs).dom().finite(),
    decreases pairs.len(),
{
    if pairs.len() > 0 {
        let front = pairs.drop_last();
        lemma_pairs_map_keys(front, key);
        if has_key(front, key) {
            let i = choose|i: int| 0 <= i < front.len() && #[trigger] front[i].0 == key;
            assert(pairs[i].0 == key);
        }
        if has_key(pairs, key) {
            let i = choose|i: int| 0 <= i < pairs.len() && #[trigger] pairs[i].0 == key;
            if i < front.len() {
                assert(front[i].0 == key);
            }
        }
        assert(pairs.last().0 == pairs[pairs.len() - 1].0);
    }
}

/// Where keys are distinct, each pair's key is bound to that pair's value,
/// and the mapping has as many entries as there are pairs.
pub proof fn lemma_pairs_map_values<K, V>(pairs: Seq<(K, V)>)
    requires
        distinct_keys(pairs),
    ensures
        forall|i: int| 0 <= i < pairs.len() ==> pairs_map(pairs).contains_key(#[trigger] pairs[i].0),
        forall|i: int| 0 <= i < pairs.len() ==> pairs_map(pairs)[#[trigger] pairs[i].0] == pairs[i].1,
        pairs_map(pairs).dom().finite(),
        pairs_map(pairs).len() == pairs.len(),
    decreases pairs.len(),
{
    if pairs.len() > 0 {
        let front = pairs.drop_last();
        let last = pairs.last();
        lemma_pairs_map_values(front);
        lemma_pairs_map_keys(front, last.0);
        if has_key(front, last.0) {
            let i = choose|i: int| 0 <= i < front.len() && #[trigger] front[i].0 == last.0;
            assert(pairs[i].0 == pairs[pairs.len() - 1].0);
        }
        assert forall|i: int| 0 <= i < pairs.len() implies pairs_map(pairs).contains_key(
            #[trigger] pairs[i].0,
        ) && pairs_map(pairs)[pairs[i].0] == pairs[i].1 by {
            if i < front.len() {
                assert(front[i].0 == pairs[i].0);
                assert(pairs[i].0 != pairs[pairs.len() - 1].0);
            }
        }
    }
}

/// Replacing the value of the pair at `at` rebinds its key.
pub proof fn lemma_pairs_map_update<K, V>(pairs: Seq<(K, V)>, at: int, value: V)
    requires
        distinct_keys(pairs),
        0 <= at < pairs.len(),
    ensures
        distinct_keys(pairs.update(at, (pairs[at].0, value))),
        pairs_map(pairs.update(at, (pairs[at].0, value))) == pairs_map(pairs).insert(
            pairs[at].0,
            value,
        ),
{
    let after = pairs.update(at, (pairs[at].0, value));
    assert(distinct_keys(after)) by {
        assert forall|i: int, j: int| 0 <= i < j < after.len() implies after[i].0 != after[j].0 by {
            assert(after[i].0 == pairs[i].0);
            assert(after[j].0 == pairs[j].0);
        }
    }
    lemma_pairs_map_values(pairs);
    lemma_pairs_map_values(after);
    let expected = pairs_map(pairs).insert(pairs[at].0, value);
    assert forall|k: K| pairs_map(after).contains_key(k) <==> expected.contains_key(
        k,
    ) by {
        lemma_pairs_map_keys(pairs, k);
        lemma_pairs_map_keys(after, k);
        if has_key(pairs, k) {
            let i = choose|i: int| 0 <= i < pairs.len() && #[trigger] pairs[i].0 == k;
            assert(after[i].0 == k);
        }
        if has_key(after, k) {
            let i = choose|i: int| 0 <= i < after.len() && #[trigger] after[i].0 == k;
            assert(pairs[i].0 == k);
        }
    }
    assert forall|k: K| pairs_map(after).contains_key(k) implies pairs_map(after)[k]
        == expected[k] by {
        lemma_pairs_map_keys(after, k);
        let i = choose|i: int| 0 <= i < after.len() && #[trigger] after[i].0 == k;
        assert(pairs_map(after)[after[i].0] == after[i].1);
        assert(pairs_map(pairs)[pairs[i].0] == pairs[i].1);
    }
    assert(pairs_map(after) =~= expected);
}

/// Taking out the pair at `at` unbinds its key.
pub proof fn lemma_pairs_map_remove<K, V>(pairs: Seq<(K, V)>, at: int)
    requires
        distinct_keys(pairs),
        0 <= at < pairs.len(),
    ensures
        distinct_keys(pairs.remove(at)),
        pairs_map(pairs.remove(at)) == pairs_map(pairs).remove(pairs[at].0),
{
    let after = pairs.remove(at);
    assert(distinct_keys(after)) by {
        assert forall|i: int, j: int| 0 <= i < j < after.len() implies after[i].0 != after[j].0 by {
            let oi = if i < at { i } else { i + 1 };
            let oj = if j < at { j } else { j + 1 };
            assert(after[i] == pairs[oi]);
            assert(after[j] == pairs[oj]);
        }
    }
    lemma_pairs_map_values(pairs);
    lemma_pairs_map_values(after);
    let expected = pairs_map(pairs).remove(pairs[at].0);
    assert forall|k: K| pairs_map(after).contains_key(k) <==> expected.contains_key(
        k,
    ) by {
        lemma_pairs_map_keys(pairs, k);
        lemma_pairs_map_keys(after, k);
        if has_key(pairs, k) && k != pairs[at].0 {
            let i = choose|i: int| 0 <= i < pairs.len() && #[trigger] pairs[i].0 == k;
            let ai = if i < at { i } else { i - 1 };
            assert(after[ai].0 == k);
        }
        if has_key(after, k) {
            let i = choose|i: int| 0 <= i < after.len() && #[trigger] after[i].0 == k;
            let oi = if i < at { i } else { i + 1 };
            assert(pairs[oi].0 == k);
        }
    }
    assert forall|k: K| pairs_map(after).contains_key(k) implies pairs_map(after)[k]
        == expected[k] by {
        lemma_pairs_map_keys(after, k);
        let i = choose|i: int| 0 <= i < after.len() && #[trigger] after[i].0 == k;
        let oi = if i < at { i } else { i + 1 };
        assert(after[i] == pairs[oi]);
        assert(pairs_map(after)[after[i].0] == after[i].1);
        assert(pairs_map(pairs)[pairs[oi].0] == pairs[oi].1);
    }
    assert(pairs_map(after) =~= expected);
}

} // verus!
