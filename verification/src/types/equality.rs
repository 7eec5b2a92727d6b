use crate::assoc::{distinct_keys, lemma_pairs_map_keys, lemma_pairs_map_values, pairs_map};
use crate::types::metadata::Metadata;
use vstd::prelude::*;
use vstd::set_lib::lemma_subset_equality;
use vstd::std_specs::cmp::PartialEqSpecImpl;
use vstd::string::*;

verus! {

/// Two bags are equal when they bind the same keys to the same values; the
/// order of the entries plays no part.
impl PartialEq for Metadata {
    fn eq(&self, other: &Metadata) -> (equal: bool) {
        let mine = self.as_map();
        let ghost pairs = mine.deep_view();
        proof {
            lemma_pairs_map_values(pairs);
            other.lemma_finite();
        }
        if mine.len() != other.len() {
            return false;
        }
        let mut at: usize = 0;
        while at < mine.len()
            invariant
                at <= mine.len(),
                pairs == mine.deep_view(),
                distinct_keys(pairs),
                pairs_map(pairs) == self@,
                mine.len() == other@.len(),
                other@.dom().finite(),
                forall|j: int|
                    0 <= j < at ==> other@.contains_key((#[trigger] pairs[j]).0) && other@[pairs[j].0]
                        == pairs[j].1,
            decreases mine.len() - at,
        {
            assert(pairs[at as int].0 == mine[at as int].0@);
            assert(pairs[at as int].1 == mine[at as int].1@);
            match other.get(mine[at].0.as_str()) {
                Some(theirs) => {
                    if !(*theirs == mine[at].1) {
                        proof {
                            lemma_pairs_map_values(pairs);
                            assert(self@[pairs[at as int].0] == pairs[at as int].1);
                        }
                        return false;
                    }
                },
                None => {
                    proof {
                        lemma_pairs_map_values(pairs);
                        assert(self@.contains_key(pairs[at as int].0));
                    }
                    return false;
                },
            }
            at += 1;
        }
        proof {
            lemma_pairs_map_values(pairs);
            assert forall|k: Seq<char>| self@.contains_key(k) implies other@.contains_key(k)
                && other@[k] == self@[k] by {
                lemma_pairs_map_keys(pairs, k);
                let j = choose|j: int| 0 <= j < pairs.len() && #[trigger] pairs[j].0 == k;
                assert(self@[pairs[j].0] == pairs[j].1);
            }
            assert forall|k: Seq<char>| self@.dom().contains(k) implies other@.dom().contains(
                k,
            ) by {
                lemma_pairs_map_keys(pairs, k);
                let j = choose|j: int| 0 <= j < pairs.len() && #[trigger] pairs[j].0 == k;
                assert(other@.contains_key(pairs[j].0));
            }
            assert(self@.dom().subset_of(other@.dom()));
            lemma_subset_equality(self@.dom(), other@.dom());
            assert(self@ =~= other@);
        }
        true
    }
}

impl PartialEqSpecImpl for Metadata {
    open spec fn obeys_eq_spec() -> bool {
        true
    }

    open spec fn eq_spec(&self, other: &Metadata) -> bool {
        self@ == other@
    }
}

impl Eq for Metadata {

}

} // verus!
