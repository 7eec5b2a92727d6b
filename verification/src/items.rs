//! Tables of items that belong to responses: kept in the order of their
//! creation times, each under an identifier of its own.

use vstd::prelude::*;
use vstd::string::*;

verus! {

/// What the store reads of an item's view: its identifier, the response it
/// belongs to, and when it was made.
pub trait ItemRecord {
    spec fn id(self) -> Seq<char>;

    spec fn owner(self) -> Seq<char>;

    spec fn created(self) -> i64;
}

/// An item that a table can hold.
pub trait StoredItem: DeepView + Sized where Self::V: ItemRecord {
    fn id_text(&self) -> (id: &String)
        ensures
            id@ == self.deep_view().id(),
    ;

    fn owner_text(&self) -> (owner: &String)
        ensures
            owner@ == self.deep_view().owner(),
    ;

    fn created_at(&self) -> (at: i64)
        ensures
            at == self.deep_view().created(),
    ;

    fn copy(&self) -> (copy: Self)
        ensures
            copy.deep_view() == self.deep_view(),
    ;
}

/// The items of `items` that belong to the response `owner`, in their order.
pub open spec fn owned_by<V: ItemRecord>(items: Seq<V>, owner: Seq<char>) -> Seq<V>
    decreases items.len(),
{
    if items.len() == 0 {
        Seq::empty()
    } else if items.last().owner() == owner {
        owned_by(items.drop_last(), owner).push(items.last())
    } else {
        owned_by(items.drop_last(), owner)
    }
}

/// The items of `items` that do not belong to the response `owner`.
pub open spec fn not_owned_by<V: ItemRecord>(items: Seq<V>, owner: Seq<char>) -> Seq<V>
    decreases items.len(),
{
    if items.len() == 0 {
        Seq::empty()
    } else if items.last().owner() == owner {
        not_owned_by(items.drop_last(), owner)
    } else {
        not_owned_by(items.drop_last(), owner).push(items.last())
    }
}

/// Some item of `items` has the identifier `id`.
pub open spec fn has_item<V: ItemRecord>(items: Seq<V>, id: Seq<char>) -> bool {
    exists|i: int| 0 <= i < items.len() && (#[trigger] items[i]).id() == id
}

/// The creation times never go down along `items`.
pub open spec fn in_time_order<V: ItemRecord>(items: Seq<V>) -> bool {
    forall|i: int, j: int|
        0 <= i <= j < items.len() ==> (#[trigger] items[i]).created() <= (
        #[trigger] items[j]).created()
}

/// Where an item made at `at` goes: behind every item that is not younger.
pub open spec fn time_slot<V: ItemRecord>(items: Seq<V>, at: i64) -> int
    decreases items.len(),
{
    if items.len() == 0 {
        0
    } else if items.last().created() <= at {
        items.len() as int
    } else {
        time_slot(items.drop_last(), at)
    }
}

/// The copies of the items of `items` that belong to `owner`.
pub fn select_owned<T: StoredItem>(items: &Vec<T>, owner: &String) -> (found: Vec<T>) where
    T::V: ItemRecord,

    ensures
        found.deep_view() == owned_by(items.deep_view(), owner@),
{
    let mut found: Vec<T> = Vec::new();
    let mut at: usize = 0;
    assert(items.deep_view().take(0) =~= Seq::<T::V>::empty());
    assert(found.deep_view() =~= Seq::<T::V>::empty());
    while at < items.len()
        invariant
            at <= items.len(),
            found.deep_view() == owned_by(items.deep_view().take(at as int), owner@),
        decreases items.len() - at,
    {
        let ghost sofar = found.deep_view();
        proof {
            assert(items.deep_view().take(at + 1).drop_last() =~= items.deep_view().take(
                at as int,
            ));
            assert(items.deep_view().take(at + 1).last() == items[at as int].deep_view());
        }
        if *items[at].owner_text() == *owner {
            let copy = items[at].copy();
            found.push(copy);
            assert(found.deep_view() =~= sofar.push(copy.deep_view()));
        }
        at += 1;
    }
    assert(items.deep_view().take(at as int) =~= items.deep_view());
    found
}

/// The items of `items` that do not belong to `owner`, moved out of it.
pub fn drop_owned<T: StoredItem>(items: Vec<T>, owner: &String) -> (kept: Vec<T>) where
    T::V: ItemRecord,

    ensures
        kept.deep_view() == not_owned_by(items.deep_view(), owner@),
{
    let mut kept: Vec<T> = Vec::new();
    let mut at: usize = 0;
    assert(items.deep_view().take(0) =~= Seq::<T::V>::empty());
    assert(kept.deep_view() =~= Seq::<T::V>::empty());
    while at < items.len()
        invariant
            at <= items.len(),
            kept.deep_view() == not_owned_by(items.deep_view().take(at as int), owner@),
        decreases items.len() - at,
    {
        let ghost sofar = kept.deep_view();
        proof {
            assert(items.deep_view().take(at + 1).drop_last() =~= items.deep_view().take(
                at as int,
            ));
            assert(items.deep_view().take(at + 1).last() == items[at as int].deep_view());
        }
        if !(*items[at].owner_text() == *owner) {
            let copy = items[at].copy();
            kept.push(copy);
            assert(kept.deep_view() =~= sofar.push(copy.deep_view()));
        }
        at += 1;
    }
    assert(items.deep_view().take(at as int) =~= items.deep_view());
    kept
}

/// Whether some item of `items` has the identifier `id`.
pub fn holds_item<T: StoredItem>(items: &Vec<T>, id: &String) -> (held: bool) where
    T::V: ItemRecord,

    ensures
        held == has_item(items.deep_view(), id@),
{
    let mut at: usize = 0;
    while at < items.len()
        invariant
            at <= items.len(),
            forall|j: int| 0 <= j < at ==> (#[trigger] items.deep_view()[j]).id() != id@,
        decreases items.len() - at,
    {
        if *items[at].id_text() == *id {
            assert(items.deep_view()[at as int].id() == id@);
            return true;
        }
        at += 1;
    }
    false
}

/// The slot of a new item made at `at` is within the sequence, everything
/// before it is not younger, and everything from it on is younger.
pub proof fn lemma_time_slot<V: ItemRecord>(items: Seq<V>, at: i64)
    ensures
        0 <= time_slot(items, at) <= items.len(),
        forall|i: int|
            time_slot(items, at) <= i < items.len() ==> (#[trigger] items[i]).created() > at,
        time_slot(items, at) > 0 ==> items[time_slot(items, at) - 1].created() <= at,
    decreases items.len(),
{
    if items.len() > 0 && items.last().created() > at {
        lemma_time_slot(items.drop_last(), at);
        let slot = time_slot(items.drop_last(), at);
        assert forall|i: int| slot <= i < items.len() implies (#[trigger] items[i]).created()
            > at by {
            if i < items.len() - 1 {
                assert(items.drop_last()[i] == items[i]);
            }
        }
        if slot > 0 {
            assert(items.drop_last()[slot - 1] == items[slot - 1]);
        }
    }
}

/// Puts `item` into `items` at the slot of its creation time.
pub fn insert_by_time<T: StoredItem>(items: &mut Vec<T>, item: T) where T::V: ItemRecord
    ensures
        final(items).deep_view() == old(items).deep_view().insert(
            time_slot(old(items).deep_view(), item.deep_view().created()),
            item.deep_view(),
        ),
{
    let ghost before = items.deep_view();
    let made = item.created_at();
    let mut slot: usize = items.len();
    assert(before.take(slot as int) =~= before);
    while slot > 0 && items[slot - 1].created_at() > made
        invariant
            slot <= items.len(),
            before == items.deep_view(),
            time_slot(before, made) == time_slot(before.take(slot as int), made),
        decreases slot,
    {
        proof {
            assert(before.take(slot as int).drop_last() =~= before.take(slot - 1));
            assert(before.take(slot as int).last() == before[slot - 1]);
        }
        slot -= 1;
    }
    proof {
        if slot > 0 {
            assert(before.take(slot as int).last() == before[slot - 1]);
        }
        assert(time_slot(before, made) == slot);
    }
    items.insert(slot, item);
    assert(items.deep_view() =~= before.insert(slot as int, item.deep_view()));
}

/// What is picked for an owner is in time order if the whole is, holds only
/// items of the whole, and holds only items of that owner.
pub proof fn lemma_owned_by<V: ItemRecord>(items: Seq<V>, owner: Seq<char>)
    ensures
        forall|k: int|
            0 <= k < owned_by(items, owner).len() ==> items.contains(
                #[trigger] owned_by(items, owner)[k],
            ) && owned_by(items, owner)[k].owner() == owner,
        in_time_order(items) ==> in_time_order(owned_by(items, owner)),
    decreases items.len(),
{
    if items.len() > 0 {
        let front = items.drop_last();
        lemma_owned_by(front, owner);
        let picked = owned_by(items, owner);
        assert forall|k: int| 0 <= k < picked.len() implies items.contains(#[trigger] picked[k])
            && picked[k].owner() == owner by {
            if k < owned_by(front, owner).len() {
                let at = choose|at: int|
                    0 <= at < front.len() && front[at] == owned_by(front, owner)[k];
                assert(items[at] == picked[k]);
            } else {
                assert(items[items.len() - 1] == picked[k]);
            }
        }
        if in_time_order(items) {
            assert(in_time_order(front)) by {
                assert forall|i: int, j: int| 0 <= i <= j < front.len() implies (
                #[trigger] front[i]).created() <= (#[trigger] front[j]).created() by {
                    assert(front[i] == items[i] && front[j] == items[j]);
                }
            }
            assert forall|i: int, j: int| 0 <= i <= j < picked.len() implies (
            #[trigger] picked[i]).created() <= (#[trigger] picked[j]).created() by {
                if j >= owned_by(front, owner).len() && i < owned_by(front, owner).len() {
                    let at = choose|at: int|
                        0 <= at < front.len() && front[at] == owned_by(front, owner)[i];
                    assert(items[at].created() <= items[items.len() - 1].created());
                }
            }
        }
    }
}

/// What is left after an owner's items are taken out is in time order if
/// the whole is, holds only items of the whole, and none of that owner.
pub proof fn lemma_not_owned_by<V: ItemRecord>(items: Seq<V>, owner: Seq<char>)
    ensures
        forall|k: int|
            0 <= k < not_owned_by(items, owner).len() ==> items.contains(
                #[trigger] not_owned_by(items, owner)[k],
            ) && not_owned_by(items, owner)[k].owner() != owner,
        in_time_order(items) ==> in_time_order(not_owned_by(items, owner)),
    decreases items.len(),
{
    if items.len() > 0 {
        let front = items.drop_last();
        lemma_not_owned_by(front, owner);
        let kept = not_owned_by(items, owner);
        assert forall|k: int| 0 <= k < kept.len() implies items.contains(#[trigger] kept[k])
            && kept[k].owner() != owner by {
            if k < not_owned_by(front, owner).len() {
                let at = choose|at: int|
                    0 <= at < front.len() && front[at] == not_owned_by(front, owner)[k];
                assert(items[at] == kept[k]);
            } else {
                assert(items[items.len() - 1] == kept[k]);
            }
        }
        if in_time_order(items) {
            assert(in_time_order(front)) by {
                assert forall|i: int, j: int| 0 <= i <= j < front.len() implies (
                #[trigger] front[i]).created() <= (#[trigger] front[j]).created() by {
                    assert(front[i] == items[i] && front[j] == items[j]);
                }
            }
            assert forall|i: int, j: int| 0 <= i <= j < kept.len() implies (
            #[trigger] kept[i]).created() <= (#[trigger] kept[j]).created() by {
                if j >= not_owned_by(front, owner).len() && i < not_owned_by(front, owner).len() {
                    let at = choose|at: int|
                        0 <= at < front.len() && front[at] == not_owned_by(front, owner)[i];
                    assert(items[at].created() <= items[items.len() - 1].created());
                }
            }
        }
    }
}

/// An item put at the slot of its creation time leaves the order intact.
pub proof fn lemma_insert_keeps_order<V: ItemRecord>(items: Seq<V>, item: V)
    requires
        in_time_order(items),
    ensures
        in_time_order(items.insert(time_slot(items, item.created()), item)),
{
    lemma_time_slot(items, item.created());
    let slot = time_slot(items, item.created());
    let after = items.insert(slot, item);
    assert forall|i: int, j: int| 0 <= i <= j < after.len() implies (
    #[trigger] after[i]).created() <= (#[trigger] after[j]).created() by {
        let oi = if i < slot { i } else { i - 1 };
        let oj = if j < slot { j } else { j - 1 };
        if i != slot {
            assert(after[i] == items[oi]);
        }
        if j != slot {
            assert(after[j] == items[oj]);
        }
        if i < slot && j == slot {
            assert(items[i].created() <= items[slot - 1].created());
        }
    }
}

/// Where no item belongs to an owner, nothing is picked for it.
pub proof fn lemma_owned_by_none<V: ItemRecord>(items: Seq<V>, owner: Seq<char>)
    requires
        forall|k: int| 0 <= k < items.len() ==> (#[trigger] items[k]).owner() != owner,
    ensures
        owned_by(items, owner) == Seq::<V>::empty(),
    decreases items.len(),
{
    if items.len() > 0 {
        assert(items.last() == items[items.len() - 1]);
        assert forall|k: int| 0 <= k < items.drop_last().len() implies (
        #[trigger] items.drop_last()[k]).owner() != owner by {
            assert(items.drop_last()[k] == items[k]);
        }
        lemma_owned_by_none(items.drop_last(), owner);
    }
}

/// Taking out one owner's items leaves what is picked for another owner.
pub proof fn lemma_owned_by_survives<V: ItemRecord>(
    items: Seq<V>,
    gone: Seq<char>,
    owner: Seq<char>,
)
    requires
        gone != owner,
    ensures
        owned_by(not_owned_by(items, gone), owner) == owned_by(items, owner),
    decreases items.len(),
{
    if items.len() > 0 {
        lemma_owned_by_survives(items.drop_last(), gone, owner);
        if items.last().owner() != gone {
            let kept = not_owned_by(items, gone);
            assert(kept.drop_last() =~= not_owned_by(items.drop_last(), gone));
            assert(kept.last() == items.last());
        }
    }
}

} // verus!
