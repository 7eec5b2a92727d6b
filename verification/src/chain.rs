//! The chain of a response: the response, the one it points to, and so on
//! back to a root, told oldest first.

use crate::database::{copy_text, DatabaseManager, ResponseSession, ResponseSessionView};
use vstd::prelude::*;
use vstd::string::*;

verus! {

/// The responses met from `from` along the links to earlier responses,
/// newest first: the walk ends where there is no link, where a link leads to
/// nothing stored, and after `limit` responses.
pub open spec fn walk(
    responses: Map<Seq<char>, ResponseSessionView>,
    from: Option<Seq<char>>,
    limit: nat,
) -> Seq<ResponseSessionView>
    decreases limit,
{
    if limit > 0 && from is Some && responses.contains_key(from.unwrap()) {
        let met = responses[from.unwrap()];
        seq![met] + walk(responses, met.previous_response_id, (limit - 1) as nat)
    } else {
        Seq::empty()
    }
}

/// The chain of the response `id`, oldest first. It holds no more responses
/// than are stored, so that links that run in a circle cannot make it
/// endless.
pub open spec fn chain(responses: Map<Seq<char>, ResponseSessionView>, id: Seq<char>) -> Seq<
    ResponseSessionView,
> {
    walk(responses, Some(id), responses.len()).reverse()
}

/// A response that is not stored has the empty chain.
pub proof fn lemma_chain_of_missing(responses: Map<Seq<char>, ResponseSessionView>, id: Seq<char>)
    requires
        !responses.contains_key(id),
    ensures
        chain(responses, id) == Seq::<ResponseSessionView>::empty(),
{
    assert(walk(responses, Some(id), responses.len()) =~= Seq::empty());
    assert(Seq::<ResponseSessionView>::empty().reverse() =~= Seq::empty());
}

/// Where `third` points to `second`, `second` to `first`, and `first` to
/// nothing, the chain of `third` is the three of them, `first` first.
pub proof fn lemma_chain_of_three(
    responses: Map<Seq<char>, ResponseSessionView>,
    first: ResponseSessionView,
    second: ResponseSessionView,
    third: ResponseSessionView,
)
    requires
        responses.dom().finite(),
        responses.contains_key(first.id) && responses[first.id] == first,
        responses.contains_key(second.id) && responses[second.id] == second,
        responses.contains_key(third.id) && responses[third.id] == third,
        first.id != second.id && second.id != third.id && first.id != third.id,
        first.previous_response_id is None,
        second.previous_response_id == Some(first.id),
        third.previous_response_id == Some(second.id),
    ensures
        chain(responses, third.id) == seq![first, second, third],
{
    let three = set![first.id, second.id, third.id];
    assert(three.subset_of(responses.dom()));
    vstd::set_lib::lemma_len_subset(three, responses.dom());
    assert(three.len() == 3) by {
        assert(set![first.id].len() == 1);
        assert(set![first.id, second.id] =~= set![first.id].insert(second.id));
        assert(three =~= set![first.id, second.id].insert(third.id));
    }
    let limit = responses.len();
    let from_first = walk(responses, Some(first.id), (limit - 2) as nat);
    let from_second = walk(responses, Some(second.id), (limit - 1) as nat);
    let from_third = walk(responses, Some(third.id), limit);
    assert(walk(responses, None, (limit - 3) as nat) =~= Seq::empty());
    assert(from_first =~= seq![first]);
    assert(from_second =~= seq![second, first]);
    assert(from_third =~= seq![third, second, first]);
    assert(seq![third, second, first].reverse() =~= seq![first, second, third]);
}

/// Every link that leads to a stored response leads to one of lower rank:
/// the links run back in time and never in a circle.
pub open spec fn links_lead_back(
    responses: Map<Seq<char>, ResponseSessionView>,
    rank: spec_fn(Seq<char>) -> nat,
) -> bool {
    forall|id: Seq<char>|
        #![trigger responses[id]]
        responses.contains_key(id) && responses[id].previous_response_id is Some
            && responses.contains_key(responses[id].previous_response_id.unwrap()) ==> rank(
            responses[id].previous_response_id.unwrap(),
        ) < rank(id)
}

/// The stored identifiers whose rank is not above that of `from`; none
/// where `from` is no stored identifier.
pub open spec fn not_above(
    responses: Map<Seq<char>, ResponseSessionView>,
    rank: spec_fn(Seq<char>) -> nat,
    from: Option<Seq<char>>,
) -> Set<Seq<char>> {
    if from is Some && responses.contains_key(from.unwrap()) {
        responses.dom().filter(|id: Seq<char>| rank(id) <= rank(from.unwrap()))
    } else {
        Set::empty()
    }
}

/// Where the links lead back, a walk that may take as many steps as there
/// are identifiers not above its start is not cut short: one more step
/// changes nothing.
pub proof fn lemma_walk_needs_no_more(
    responses: Map<Seq<char>, ResponseSessionView>,
    rank: spec_fn(Seq<char>) -> nat,
    from: Option<Seq<char>>,
    limit: nat,
)
    requires
        responses.dom().finite(),
        links_lead_back(responses, rank),
        limit >= not_above(responses, rank, from).len(),
    ensures
        walk(responses, from, limit) == walk(responses, from, limit + 1),
    decreases limit,
{
    if from is Some && responses.contains_key(from.unwrap()) {
        let id = from.unwrap();
        let here = not_above(responses, rank, from);
        let next = responses[id].previous_response_id;
        let there = not_above(responses, rank, next);
        assert(here.contains(id));
        assert(here.subset_of(responses.dom()));
        vstd::set_lib::lemma_len_subset(here, responses.dom());
        assert(there.subset_of(here.remove(id))) by {
            if next is Some && responses.contains_key(next.unwrap()) {
                assert(rank(next.unwrap()) < rank(id));
            }
        }
        vstd::set_lib::lemma_len_subset(there, here.remove(id));
        assert(limit >= 1);
        lemma_walk_needs_no_more(responses, rank, next, (limit - 1) as nat);
    }
}

/// Where the links lead back, the chain of a stored response is the chain
/// of the response it points to, and then the response itself.
pub proof fn lemma_chain_grows_by_one(
    responses: Map<Seq<char>, ResponseSessionView>,
    rank: spec_fn(Seq<char>) -> nat,
    id: Seq<char>,
)
    requires
        responses.dom().finite(),
        links_lead_back(responses, rank),
        responses.contains_key(id),
    ensures
        chain(responses, id) == (match responses[id].previous_response_id {
            Some(previous) => chain(responses, previous),
            None => Seq::empty(),
        }).push(responses[id]),
{
    let total = responses.len();
    let next = responses[id].previous_response_id;
    let there = not_above(responses, rank, next);
    assert(total >= 1) by {
        assert(responses.dom().contains(id));
        if total == 0 {
            assert(responses.dom() =~= Set::empty());
        }
    }
    assert(there.subset_of(responses.dom().remove(id))) by {
        if next is Some && responses.contains_key(next.unwrap()) {
            assert(rank(next.unwrap()) < rank(id));
        }
    }
    vstd::set_lib::lemma_len_subset(there, responses.dom().remove(id));
    lemma_walk_needs_no_more(responses, rank, next, (total - 1) as nat);
    let rest = walk(responses, next, total);
    assert(walk(responses, Some(id), total) =~= seq![responses[id]] + rest);
    assert((seq![responses[id]] + rest).reverse() =~= rest.reverse().push(responses[id]));
    if next is None {
        assert(rest =~= Seq::empty());
        assert(rest.reverse() =~= Seq::<ResponseSessionView>::empty());
    }
}

/// A walk along a chain that is under way. Whoever holds the store asks
/// `next_id` which response to fetch, fetches it, and hands what was found
/// to `record`; when `next_id` has nothing more to ask, `finish` gives the
/// chain.
#[derive(Debug)]
pub struct ChainWalk {
    visited: Vec<ResponseSession>,
    next: Option<String>,
}

impl ChainWalk {
    /// The responses met so far, newest first.
    pub closed spec fn visited(&self) -> Seq<ResponseSessionView> {
        self.visited.deep_view()
    }

    /// The identifier to fetch next, if the walk is not over.
    pub closed spec fn pending(&self) -> Option<Seq<char>> {
        self.next.deep_view()
    }

    /// A walk that begins at `response_id`.
    pub fn start(response_id: &str) -> (begun: ChainWalk)
        ensures
            begun.visited() == Seq::<ResponseSessionView>::empty(),
            begun.pending() == Some(response_id@),
    {
        let begun = ChainWalk { visited: Vec::new(), next: Some(response_id.to_owned()) };
        assert(begun.visited.deep_view() =~= Seq::<ResponseSessionView>::empty());
        begun
    }

    /// The identifier to fetch next, or `None` when the walk is over.
    pub fn next_id(&self) -> (id: Option<&String>)
        ensures
            id.deep_view() == self.pending(),
    {
        self.next.as_ref()
    }

    /// The number of responses met so far.
    pub fn len(&self) -> (count: usize)
        ensures
            count == self.visited().len(),
    {
        self.visited.len()
    }

    /// Takes in what the fetch found. A response is added to the walk, which
    /// goes on at the response it points to; nothing found ends the walk.
    pub fn record(&mut self, fetched: Option<ResponseSession>)
        ensures
            match fetched {
                Some(response) => {
                    &&& final(self).visited() == old(self).visited().push(response@)
                    &&& final(self).pending() == response@.previous_response_id
                },
                None => {
                    &&& final(self).visited() == old(self).visited()
                    &&& final(self).pending() is None
                },
            },
    {
        match fetched {
            Some(response) => {
                let ghost before = self.visited.deep_view();
                self.next = copy_text(&response.previous_response_id);
                self.visited.push(response);
                assert(self.visited.deep_view() =~= before.push(response@));
            },
            None => {
                self.next = None;
            },
        }
    }

    /// The responses met, oldest first.
    pub fn finish(self) -> (found: Vec<ResponseSession>)
        ensures
            found.deep_view() == self.visited().reverse(),
    {
        let ghost all = self.visited.deep_view();
        let mut visited = self.visited;
        let mut found: Vec<ResponseSession> = Vec::new();
        assert(found.deep_view() =~= all.subrange(all.len() as int, all.len() as int).reverse());
        assert(all.take(all.len() as int) =~= all);
        while visited.len() > 0
            invariant
                visited.len() <= all.len(),
                visited.deep_view() == all.take(visited.len() as int),
                found.deep_view() == all.subrange(
                    visited.len() as int,
                    all.len() as int,
                ).reverse(),
            decreases visited.len(),
        {
            let ghost left = visited.len();
            let ghost sofar = found.deep_view();
            let ghost held = visited.deep_view();
            let last = visited.pop().unwrap();
            found.push(last);
            proof {
                assert(last.deep_view() == held[left - 1]);
                assert(visited.deep_view() =~= all.take(left - 1));
                assert(found.deep_view() =~= sofar.push(all[left - 1]));
                assert(found.deep_view() =~= all.subrange(left - 1, all.len() as int).reverse());
            }
        }
        assert(all.subrange(0, all.len() as int) =~= all);
        found
    }
}

impl DatabaseManager {
    /// The chain of the response `response_id`, oldest first; empty where no
    /// such response is stored.
    pub fn get_conversation_history(&self, response_id: &str) -> (history: Vec<ResponseSession>)
        ensures
            history.deep_view() == chain(self@.responses, response_id@),
    {
        let limit = self.response_count();
        let mut steps = ChainWalk::start(response_id);
        assert(Seq::<ResponseSessionView>::empty() + walk(
            self@.responses,
            Some(response_id@),
            limit as nat,
        ) =~= walk(self@.responses, Some(response_id@), limit as nat));
        while steps.len() < limit
            invariant
                steps.visited().len() <= limit,
                limit == self@.responses.len(),
                walk(self@.responses, Some(response_id@), limit as nat) == steps.visited() + walk(
                    self@.responses,
                    steps.pending(),
                    (limit - steps.visited().len()) as nat,
                ),
            decreases limit - steps.visited().len(),
        {
            let ghost met = steps.visited();
            let ghost asked = steps.pending();
            let fetched = match steps.next_id() {
                Some(id) => self.get_response(id.as_str()),
                None => None,
            };
            if fetched.is_none() {
                assert(met + Seq::<ResponseSessionView>::empty() =~= met);
                return steps.finish();
            }
            proof {
                let response = fetched.unwrap()@;
                let rest = walk(
                    self@.responses,
                    response.previous_response_id,
                    (limit - met.len() - 1) as nat,
                );
                assert(met + (seq![response] + rest) =~= met.push(response) + rest);
            }
            steps.record(fetched);
        }
        assert(steps.visited() + Seq::<ResponseSessionView>::empty() =~= steps.visited());
        steps.finish()
    }
}

} // verus!
