//! The conversation store: responses, each with an optional link to the
//! response before it, and the input and output items that belong to them.

use crate::assoc::{
    distinct_keys, has_key, lemma_pairs_map_keys, lemma_pairs_map_remove, lemma_pairs_map_update,
    lemma_pairs_map_values, pairs_map,
};
use crate::items::{
    drop_owned, has_item, holds_item, in_time_order, insert_by_time, lemma_insert_keeps_order,
    lemma_not_owned_by, lemma_owned_by, lemma_owned_by_none, lemma_owned_by_survives,
    not_owned_by, owned_by, select_owned, time_slot,
    ItemRecord, StoredItem,
};
use crate::types::metadata::Metadata;
use crate::types::number::FloatBits;
use crate::types::role::Role;
use vstd::prelude::*;
use vstd::string::*;

verus! {

/// One stored turn of a conversation.
#[derive(Debug)]
pub struct ResponseSession {
    pub id: String,
    pub object: String,
    pub created_at: i64,
    pub status: String,
    pub model: String,
    pub previous_response_id: Option<String>,
    pub instructions: Option<String>,
    pub max_output_tokens: Option<i64>,
    pub temperature: Option<FloatBits>,
    pub top_p: Option<FloatBits>,
    pub store: bool,
    pub metadata: Option<Metadata>,
    pub user_id: Option<String>,
    pub safety_identifier: Option<String>,
    pub prompt_cache_key: Option<String>,
    pub usage_input_tokens: Option<i64>,
    pub usage_output_tokens: Option<i64>,
    pub usage_total_tokens: Option<i64>,
    pub error: Option<String>,
    pub incomplete_details: Option<String>,
}

/// A stored turn with its texts, and its metadata as a mapping.
pub struct ResponseSessionView {
    pub id: Seq<char>,
    pub object: Seq<char>,
    pub created_at: i64,
    pub status: Seq<char>,
    pub model: Seq<char>,
    pub previous_response_id: Option<Seq<char>>,
    pub instructions: Option<Seq<char>>,
    pub max_output_tokens: Option<i64>,
    pub temperature: Option<FloatBits>,
    pub top_p: Option<FloatBits>,
    pub store: bool,
    pub metadata: Option<Map<Seq<char>, Seq<char>>>,
    pub user_id: Option<Seq<char>>,
    pub safety_identifier: Option<Seq<char>>,
    pub prompt_cache_key: Option<Seq<char>>,
    pub usage_input_tokens: Option<i64>,
    pub usage_output_tokens: Option<i64>,
    pub usage_total_tokens: Option<i64>,
    pub error: Option<Seq<char>>,
    pub incomplete_details: Option<Seq<char>>,
}

impl View for ResponseSession {
    type V = ResponseSessionView;

    open spec fn view(&self) -> ResponseSessionView {
        ResponseSessionView {
            id: self.id@,
            object: self.object@,
            created_at: self.created_at,
            status: self.status@,
            model: self.model@,
            previous_response_id: self.previous_response_id.deep_view(),
            instructions: self.instructions.deep_view(),
            max_output_tokens: self.max_output_tokens,
            temperature: self.temperature,
            top_p: self.top_p,
            store: self.store,
            metadata: match self.metadata {
                Some(metadata) => Some(metadata@),
                None => None,
            },
            user_id: self.user_id.deep_view(),
            safety_identifier: self.safety_identifier.deep_view(),
            prompt_cache_key: self.prompt_cache_key.deep_view(),
            usage_input_tokens: self.usage_input_tokens,
            usage_output_tokens: self.usage_output_tokens,
            usage_total_tokens: self.usage_total_tokens,
            error: self.error.deep_view(),
            incomplete_details: self.incomplete_details.deep_view(),
        }
    }
}

impl DeepView for ResponseSession {
    type V = ResponseSessionView;

    open spec fn deep_view(&self) -> ResponseSessionView {
        self@
    }
}

/// A copy of an optional text.
pub(crate) fn copy_text(text: &Option<String>) -> (copy: Option<String>)
    ensures
        copy.deep_view() == text.deep_view(),
{
    match text {
        Some(text) => Some(text.clone()),
        None => None,
    }
}

impl Clone for ResponseSession {
    fn clone(&self) -> (copy: ResponseSession)
        ensures
            copy@ == self@,
    {
        ResponseSession {
            id: self.id.clone(),
            object: self.object.clone(),
            created_at: self.created_at,
            status: self.status.clone(),
            model: self.model.clone(),
            previous_response_id: copy_text(&self.previous_response_id),
            instructions: copy_text(&self.instructions),
            max_output_tokens: self.max_output_tokens,
            temperature: self.temperature,
            top_p: self.top_p,
            store: self.store,
            metadata: match &self.metadata {
                Some(metadata) => Some(metadata.clone()),
                None => None,
            },
            user_id: copy_text(&self.user_id),
            safety_identifier: copy_text(&self.safety_identifier),
            prompt_cache_key: copy_text(&self.prompt_cache_key),
            usage_input_tokens: self.usage_input_tokens,
            usage_output_tokens: self.usage_output_tokens,
            usage_total_tokens: self.usage_total_tokens,
            error: copy_text(&self.error),
            incomplete_details: copy_text(&self.incomplete_details),
        }
    }
}

/// What was sent to the model for a response. The content is JSON text that
/// the store keeps and does not read.
#[derive(Debug)]
pub struct InputItem {
    pub id: String,
    pub response_id: String,
    pub item_type: String,
    pub role: Option<Role>,
    pub content: String,
    pub created_at: i64,
}

/// An input item with its texts.
pub struct InputItemView {
    pub id: Seq<char>,
    pub response_id: Seq<char>,
    pub item_type: Seq<char>,
    pub role: Option<Role>,
    pub content: Seq<char>,
    pub created_at: i64,
}

impl View for InputItem {
    type V = InputItemView;

    open spec fn view(&self) -> InputItemView {
        InputItemView {
            id: self.id@,
            response_id: self.response_id@,
            item_type: self.item_type@,
            role: self.role,
            content: self.content@,
            created_at: self.created_at,
        }
    }
}

impl DeepView for InputItem {
    type V = InputItemView;

    open spec fn deep_view(&self) -> InputItemView {
        self@
    }
}

impl Clone for InputItem {
    fn clone(&self) -> (copy: InputItem)
        ensures
            copy@ == self@,
    {
        InputItem {
            id: self.id.clone(),
            response_id: self.response_id.clone(),
            item_type: self.item_type.clone(),
            role: self.role,
            content: self.content.clone(),
            created_at: self.created_at,
        }
    }
}

/// What the model produced for a response.
#[derive(Debug)]
pub struct OutputItem {
    pub id: String,
    pub response_id: String,
    pub item_type: String,
    pub role: Option<Role>,
    pub content: String,
    pub status: String,
    pub created_at: i64,
}

/// An output item with its texts.
pub struct OutputItemView {
    pub id: Seq<char>,
    pub response_id: Seq<char>,
    pub item_type: Seq<char>,
    pub role: Option<Role>,
    pub content: Seq<char>,
    pub status: Seq<char>,
    pub created_at: i64,
}

impl View for OutputItem {
    type V = OutputItemView;

    open spec fn view(&self) -> OutputItemView {
        OutputItemView {
            id: self.id@,
            response_id: self.response_id@,
            item_type: self.item_type@,
            role: self.role,
            content: self.content@,
            status: self.status@,
            created_at: self.created_at,
        }
    }
}

impl DeepView for OutputItem {
    type V = OutputItemView;

    open spec fn deep_view(&self) -> OutputItemView {
        self@
    }
}

impl Clone for OutputItem {
    fn clone(&self) -> (copy: OutputItem)
        ensures
            copy@ == self@,
    {
        OutputItem {
            id: self.id.clone(),
            response_id: self.response_id.clone(),
            item_type: self.item_type.clone(),
            role: self.role,
            content: self.content.clone(),
            status: self.status.clone(),
            created_at: self.created_at,
        }
    }
}

impl ItemRecord for InputItemView {
    open spec fn id(self) -> Seq<char> {
        self.id
    }

    open spec fn owner(self) -> Seq<char> {
        self.response_id
    }

    open spec fn created(self) -> i64 {
        self.created_at
    }
}

impl StoredItem for InputItem {
    fn id_text(&self) -> (id: &String) {
        &self.id
    }

    fn owner_text(&self) -> (owner: &String) {
        &self.response_id
    }

    fn created_at(&self) -> (at: i64) {
        self.created_at
    }

    fn copy(&self) -> (copy: InputItem) {
        self.clone()
    }
}

impl ItemRecord for OutputItemView {
    open spec fn id(self) -> Seq<char> {
        self.id
    }

    open spec fn owner(self) -> Seq<char> {
        self.response_id
    }

    open spec fn created(self) -> i64 {
        self.created_at
    }
}

impl StoredItem for OutputItem {
    fn id_text(&self) -> (id: &String) {
        &self.id
    }

    fn owner_text(&self) -> (owner: &String) {
        &self.response_id
    }

    fn created_at(&self) -> (at: i64) {
        self.created_at
    }

    fn copy(&self) -> (copy: OutputItem) {
        self.clone()
    }
}

/// Why the store refused a write.
#[derive(Debug, Clone, Copy, PartialEq, Eq, Structural)]
pub enum StoreError {
    /// The identifier is already taken.
    Conflict,
    /// The response that the record points to is not stored.
    InvalidReference,
}

/// What a store holds: the responses by identifier, and the two sets of
/// items, each in the order of the items' creation times.
pub struct StoreView {
    pub responses: Map<Seq<char>, ResponseSessionView>,
    pub input_items: Seq<InputItemView>,
    pub output_items: Seq<OutputItemView>,
}

/// Each response under its identifier.
pub open spec fn keyed(responses: Seq<ResponseSessionView>) -> Seq<
    (Seq<char>, ResponseSessionView),
> {
    Seq::new(responses.len(), |i: int| (responses[i].id, responses[i]))
}

impl StoreView {
    /// The reason, if any, for which `response` is refused: its identifier
    /// is taken, or it points to a response that is not stored. A response
    /// cannot point to itself, since it is not stored yet.
    pub open spec fn response_rejection(self, response: ResponseSessionView) -> Option<
        StoreError,
    > {
        if self.responses.contains_key(response.id) {
            Some(StoreError::Conflict)
        } else if response.previous_response_id is Some && !self.responses.contains_key(
            response.previous_response_id.unwrap(),
        ) {
            Some(StoreError::InvalidReference)
        } else {
            None
        }
    }

    /// The reason, if any, for which an item with the identifier `id`, of
    /// the response `owner`, is refused by the set `items`.
    pub open spec fn item_rejection<V: ItemRecord>(
        self,
        items: Seq<V>,
        id: Seq<char>,
        owner: Seq<char>,
    ) -> Option<StoreError> {
        if has_item(items, id) {
            Some(StoreError::Conflict)
        } else if !self.responses.contains_key(owner) {
            Some(StoreError::InvalidReference)
        } else {
            None
        }
    }

    /// The store without the response `id` and without its items.
    pub open spec fn without(self, id: Seq<char>) -> StoreView {
        StoreView {
            responses: self.responses.remove(id),
            input_items: not_owned_by(self.input_items, id),
            output_items: not_owned_by(self.output_items, id),
        }
    }

    /// The response `id`, if it is stored.
    pub open spec fn response(self, id: Seq<char>) -> Option<ResponseSessionView> {
        if self.responses.contains_key(id) {
            Some(self.responses[id])
        } else {
            None
        }
    }
}

/// Once a response is taken out, it is not found any more, and no input or
/// output item of it is left.
pub proof fn lemma_delete_cascades(store: StoreView, id: Seq<char>)
    ensures
        store.without(id).response(id) is None,
        owned_by(store.without(id).input_items, id) == Seq::<InputItemView>::empty(),
        owned_by(store.without(id).output_items, id) == Seq::<OutputItemView>::empty(),
{
    lemma_not_owned_by(store.input_items, id);
    lemma_not_owned_by(store.output_items, id);
    lemma_owned_by_none(not_owned_by(store.input_items, id), id);
    lemma_owned_by_none(not_owned_by(store.output_items, id), id);
}

/// Taking out one response leaves every other response, and every item of
/// another response, as it was.
pub proof fn lemma_delete_spares_others(store: StoreView, id: Seq<char>, other: Seq<char>)
    requires
        other != id,
    ensures
        store.without(id).response(other) == store.response(other),
        owned_by(store.without(id).input_items, other) == owned_by(store.input_items, other),
        owned_by(store.without(id).output_items, other) == owned_by(store.output_items, other),
{
    lemma_owned_by_survives(store.input_items, id, other);
    lemma_owned_by_survives(store.output_items, id, other);
}

/// The conversation store.
#[derive(Debug)]
pub struct DatabaseManager {
    responses: Vec<ResponseSession>,
    input_items: Vec<InputItem>,
    output_items: Vec<OutputItem>,
}

impl View for DatabaseManager {
    type V = StoreView;

    closed spec fn view(&self) -> StoreView {
        StoreView {
            responses: pairs_map(keyed(self.responses.deep_view())),
            input_items: self.input_items.deep_view(),
            output_items: self.output_items.deep_view(),
        }
    }
}

impl DatabaseManager {
    #[verifier::type_invariant]
    spec fn well_formed(&self) -> bool {
        &&& distinct_keys(keyed(self.responses.deep_view()))
        &&& in_time_order(self.input_items.deep_view())
        &&& in_time_order(self.output_items.deep_view())
    }

    /// The place of the response `id`, if it is stored.
    fn position(&self, id: &String) -> (found: Option<usize>)
        ensures
            match found {
                Some(at) => at < self.responses.len() && self.responses.deep_view()[at as int].id
                    == id@ && self@.responses.contains_key(id@) && self@.responses[id@]
                    == self.responses.deep_view()[at as int],
                None => !self@.responses.contains_key(id@),
            },
    {
        proof {
            use_type_invariant(self);
        }
        let ghost pairs = keyed(self.responses.deep_view());
        let mut at: usize = 0;
        while at < self.responses.len()
            invariant
                at <= self.responses.len(),
                pairs == keyed(self.responses.deep_view()),
                distinct_keys(pairs),
                forall|j: int| 0 <= j < at ==> (#[trigger] pairs[j]).0 != id@,
            decreases self.responses.len() - at,
        {
            if self.responses[at].id == *id {
                proof {
                    lemma_pairs_map_values(pairs);
                    assert(pairs[at as int].0 == id@);
                    assert(pairs_map(pairs)[pairs[at as int].0] == pairs[at as int].1);
                }
                return Some(at);
            }
            at += 1;
        }
        proof {
            lemma_pairs_map_keys(pairs, id@);
        }
        None
    }

    /// The number of responses stored.
    pub fn response_count(&self) -> (count: usize)
        ensures
            count == self@.responses.len(),
            self@.responses.dom().finite(),
    {
        proof {
            use_type_invariant(self);
            lemma_pairs_map_values(keyed(self.responses.deep_view()));
        }
        self.responses.len()
    }

    /// The empty store.
    pub fn new() -> (store: DatabaseManager)
        ensures
            store@.responses == Map::<Seq<char>, ResponseSessionView>::empty(),
            store@.input_items == Seq::<InputItemView>::empty(),
            store@.output_items == Seq::<OutputItemView>::empty(),
    {
        let store = DatabaseManager {
            responses: Vec::new(),
            input_items: Vec::new(),
            output_items: Vec::new(),
        };
        assert(keyed(store.responses.deep_view()) =~= Seq::empty());
        assert(store.input_items.deep_view() =~= Seq::<InputItemView>::empty());
        assert(store.output_items.deep_view() =~= Seq::<OutputItemView>::empty());
        store
    }

    /// Stores a response, unless its identifier is taken or the response it
    /// points to is not stored; a refused write changes nothing.
    pub fn store_response(&mut self, response: ResponseSession) -> (outcome: Result<
        (),
        StoreError,
    >)
        ensures
            outcome is Ok <==> old(self)@.response_rejection(response@) is None,
            match outcome {
                Ok(()) => final(self)@ == (StoreView {
                    responses: old(self)@.responses.insert(response@.id, response@),
                    ..old(self)@
                }),
                Err(error) => final(self)@ == old(self)@ && Some(error) == old(
                    self,
                )@.response_rejection(response@),
            },
    {
        proof {
            use_type_invariant(&*self);
        }
        if self.position(&response.id).is_some() {
            return Err(StoreError::Conflict);
        }
        match &response.previous_response_id {
            Some(previous) => {
                if self.position(previous).is_none() {
                    return Err(StoreError::InvalidReference);
                }
            },
            None => {},
        }
        let ghost before = keyed(self.responses.deep_view());
        let mut responses: Vec<ResponseSession> = Vec::new();
        assert(keyed(responses.deep_view()) =~= Seq::empty());
        core::mem::swap(&mut self.responses, &mut responses);
        responses.push(response);
        proof {
            let after = keyed(responses.deep_view());
            assert(after =~= before.push((response@.id, response@)));
            assert(after.drop_last() =~= before);
            lemma_pairs_map_keys(before, response@.id);
            assert forall|i: int, j: int| 0 <= i < j < after.len() implies after[i].0
                != after[j].0 by {
                if j == after.len() - 1 {
                    assert(before[i].0 != response@.id);
                }
            }
        }
        core::mem::swap(&mut self.responses, &mut responses);
        Ok(())
    }

    /// A copy of the response `response_id`, if it is stored.
    pub fn get_response(&self, response_id: &str) -> (found: Option<ResponseSession>)
        ensures
            found.deep_view() == self@.response(response_id@),
    {
        let id = response_id.to_owned();
        match self.position(&id) {
            Some(at) => Some(self.responses[at].clone()),
            None => None,
        }
    }

    /// Stores an input item at the place of its creation time, unless its
    /// identifier is taken or its response is not stored.
    pub fn store_input_item(&mut self, item: InputItem) -> (outcome: Result<(), StoreError>)
        ensures
            outcome is Ok <==> old(self)@.item_rejection(
                old(self)@.input_items,
                item@.id,
                item@.response_id,
            ) is None,
            match outcome {
                Ok(()) => final(self)@ == (StoreView {
                    input_items: old(self)@.input_items.insert(
                        time_slot(old(self)@.input_items, item.created_at),
                        item@,
                    ),
                    ..old(self)@
                }),
                Err(error) => final(self)@ == old(self)@ && Some(error) == old(
                    self,
                )@.item_rejection(old(self)@.input_items, item@.id, item@.response_id),
            },
    {
        proof {
            use_type_invariant(&*self);
        }
        if holds_item(&self.input_items, &item.id) {
            return Err(StoreError::Conflict);
        }
        if self.position(&item.response_id).is_none() {
            return Err(StoreError::InvalidReference);
        }
        let ghost before = self.input_items.deep_view();
        let mut items: Vec<InputItem> = Vec::new();
        assert(items.deep_view() =~= Seq::<InputItemView>::empty());
        core::mem::swap(&mut self.input_items, &mut items);
        insert_by_time(&mut items, item);
        proof {
            lemma_insert_keeps_order(before, item@);
        }
        core::mem::swap(&mut self.input_items, &mut items);
        Ok(())
    }

    /// Stores an output item at the place of its creation time, unless its
    /// identifier is taken or its response is not stored.
    pub fn store_output_item(&mut self, item: OutputItem) -> (outcome: Result<(), StoreError>)
        ensures
            outcome is Ok <==> old(self)@.item_rejection(
                old(self)@.output_items,
                item@.id,
                item@.response_id,
            ) is None,
            match outcome {
                Ok(()) => final(self)@ == (StoreView {
                    output_items: old(self)@.output_items.insert(
                        time_slot(old(self)@.output_items, item.created_at),
                        item@,
                    ),
                    ..old(self)@
                }),
                Err(error) => final(self)@ == old(self)@ && Some(error) == old(
                    self,
                )@.item_rejection(old(self)@.output_items, item@.id, item@.response_id),
            },
    {
        proof {
            use_type_invariant(&*self);
        }
        if holds_item(&self.output_items, &item.id) {
            return Err(StoreError::Conflict);
        }
        if self.position(&item.response_id).is_none() {
            return Err(StoreError::InvalidReference);
        }
        let ghost before = self.output_items.deep_view();
        let mut items: Vec<OutputItem> = Vec::new();
        assert(items.deep_view() =~= Seq::<OutputItemView>::empty());
        core::mem::swap(&mut self.output_items, &mut items);
        insert_by_time(&mut items, item);
        proof {
            lemma_insert_keeps_order(before, item@);
        }
        core::mem::swap(&mut self.output_items, &mut items);
        Ok(())
    }

    /// The input items of the response `response_id`, oldest first.
    pub fn get_input_items(&self, response_id: &str) -> (items: Vec<InputItem>)
        ensures
            items.deep_view() == owned_by(self@.input_items, response_id@),
            in_time_order(items.deep_view()),
    {
        proof {
            use_type_invariant(self);
            lemma_owned_by(self.input_items.deep_view(), response_id@);
        }
        let owner = response_id.to_owned();
        select_owned(&self.input_items, &owner)
    }

    /// The output items of the response `response_id`, oldest first.
    pub fn get_output_items(&self, response_id: &str) -> (items: Vec<OutputItem>)
        ensures
            items.deep_view() == owned_by(self@.output_items, response_id@),
            in_time_order(items.deep_view()),
    {
        proof {
            use_type_invariant(self);
            lemma_owned_by(self.output_items.deep_view(), response_id@);
        }
        let owner = response_id.to_owned();
        select_owned(&self.output_items, &owner)
    }

    /// Takes out the response `response_id` with all its items, and says
    /// whether there was such a response. Responses that point to it stay,
    /// with a link that leads nowhere.
    pub fn delete_response(&mut self, response_id: &str) -> (existed: bool)
        ensures
            existed == old(self)@.responses.contains_key(response_id@),
            final(self)@ == old(self)@.without(response_id@),
    {
        proof {
            use_type_invariant(&*self);
        }
        let id = response_id.to_owned();
        let found = self.position(&id);
        let ghost before = keyed(self.responses.deep_view());
        let ghost inputs = self.input_items.deep_view();
        let ghost outputs = self.output_items.deep_view();
        let existed = match found {
            Some(at) => {
                let mut responses: Vec<ResponseSession> = Vec::new();
                assert(keyed(responses.deep_view()) =~= Seq::empty());
                core::mem::swap(&mut self.responses, &mut responses);
                let _ = responses.remove(at);
                proof {
                    assert(keyed(responses.deep_view()) =~= before.remove(at as int));
                    lemma_pairs_map_remove(before, at as int);
                }
                core::mem::swap(&mut self.responses, &mut responses);
                true
            },
            None => {
                assert(pairs_map(before).remove(id@) =~= pairs_map(before));
                false
            },
        };
        let mut input_items: Vec<InputItem> = Vec::new();
        assert(input_items.deep_view() =~= Seq::<InputItemView>::empty());
        core::mem::swap(&mut self.input_items, &mut input_items);
        let mut kept_inputs = drop_owned(input_items, &id);
        proof {
            lemma_not_owned_by(inputs, id@);
        }
        core::mem::swap(&mut self.input_items, &mut kept_inputs);
        let mut output_items: Vec<OutputItem> = Vec::new();
        assert(output_items.deep_view() =~= Seq::<OutputItemView>::empty());
        core::mem::swap(&mut self.output_items, &mut output_items);
        let mut kept_outputs = drop_owned(output_items, &id);
        proof {
            lemma_not_owned_by(outputs, id@);
        }
        core::mem::swap(&mut self.output_items, &mut kept_outputs);
        existed
    }

    /// Sets the status of the response `response_id` and touches nothing
    /// else; where no such response is stored, nothing changes.
    pub fn update_response_status(&mut self, response_id: &str, status: &str)
        ensures
            final(self)@ == (StoreView {
                responses: match old(self)@.response(response_id@) {
                    Some(response) => old(self)@.responses.insert(
                        response_id@,
                        ResponseSessionView { status: status@, ..response },
                    ),
                    None => old(self)@.responses,
                },
                ..old(self)@
            }),
    {
        proof {
            use_type_invariant(&*self);
        }
        let id = response_id.to_owned();
        let found = self.position(&id);
        let ghost before = keyed(self.responses.deep_view());
        match found {
            Some(at) => {
                let mut responses: Vec<ResponseSession> = Vec::new();
                assert(keyed(responses.deep_view()) =~= Seq::empty());
                core::mem::swap(&mut self.responses, &mut responses);
                let mut response = responses.remove(at);
                response.status = status.to_owned();
                responses.insert(at, response);
                proof {
                    let changed = ResponseSessionView { status: status@, ..before[at as int].1 };
                    assert(keyed(responses.deep_view()) =~= before.update(
                        at as int,
                        (before[at as int].0, changed),
                    ));
                    lemma_pairs_map_update(before, at as int, changed);
                }
                core::mem::swap(&mut self.responses, &mut responses);
            },
            None => {},
        }
    }
}

} // verus!
