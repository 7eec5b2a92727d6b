use crate::assoc::{
    distinct_keys, has_key, lemma_pairs_map_keys, lemma_pairs_map_remove, lemma_pairs_map_update,
    lemma_pairs_map_values, pairs_map,
};
use crate::json::{decode_text_map, encode_text_map, json_text_map};
use crate::text::{decimal, decimal_text};
use vstd::prelude::*;
use vstd::string::*;

verus! {

/// Most entries that a validated metadata bag holds.
pub const MAX_ENTRIES: usize = 16;

/// Most characters in a key.
pub const MAX_KEY_CHARS: usize = 64;

/// Most characters in a value.
pub const MAX_VALUE_CHARS: usize = 512;

/// Why a metadata bag was refused. The number is the length, in characters,
/// of the longest key (or value) that is over its bound.
#[derive(Debug, Clone, Copy, PartialEq, Eq, Structural)]
pub enum MetadataError {
    TooManyKeys,
    KeyTooLong(usize),
    ValueTooLong(usize),
}

impl MetadataError {
    /// What the error says, in words.
    pub open spec fn message_text(self) -> Seq<char> {
        match self {
            MetadataError::TooManyKeys => "Metadata cannot have more than 16 key-value pairs"@,
            MetadataError::KeyTooLong(n) => "Metadata key too long: "@ + decimal(n as nat)
                + " characters (max 64)"@,
            MetadataError::ValueTooLong(n) => "Metadata value too long: "@ + decimal(n as nat)
                + " characters (max 512)"@,
        }
    }

    /// What the error says, in words.
    pub fn to_string(&self) -> (message: String)
        ensures
            message@ == self.message_text(),
    {
        match self {
            MetadataError::TooManyKeys => {
                "Metadata cannot have more than 16 key-value pairs".to_owned()
            },
            MetadataError::KeyTooLong(n) => {
                let mut message = "Metadata key too long: ".to_owned();
                message.append(decimal_text(*n).as_str());
                message.append(" characters (max 64)");
                message
            },
            MetadataError::ValueTooLong(n) => {
                let mut message = "Metadata value too long: ".to_owned();
                message.append(decimal_text(*n).as_str());
                message.append(" characters (max 512)");
                message
            },
        }
    }
}

/// A key and its value, as texts.
pub type Pair = (Seq<char>, Seq<char>);

/// The bounds on a metadata mapping: at most 16 entries, keys of at most 64
/// characters, values of at most 512.
pub open spec fn within_limits(map: Map<Seq<char>, Seq<char>>) -> bool {
    &&& map.len() <= MAX_ENTRIES
    &&& forall|k: Seq<char>| #[trigger] map.contains_key(k) ==> k.len() <= MAX_KEY_CHARS
    &&& forall|k: Seq<char>| map.contains_key(k) ==> (#[trigger] map[k]).len() <= MAX_VALUE_CHARS
}

/// `n` is the length of a longest key of `map`.
pub open spec fn is_longest_key(map: Map<Seq<char>, Seq<char>>, n: nat) -> bool {
    &&& exists|k: Seq<char>| #[trigger] map.contains_key(k) && k.len() == n
    &&& forall|k: Seq<char>| #[trigger] map.contains_key(k) ==> k.len() <= n
}

/// `n` is the length of a longest value of `map`.
pub open spec fn is_longest_value(map: Map<Seq<char>, Seq<char>>, n: nat) -> bool {
    &&& exists|k: Seq<char>| map.contains_key(k) && (#[trigger] map[k]).len() == n
    &&& forall|k: Seq<char>| map.contains_key(k) ==> (#[trigger] map[k]).len() <= n
}

/// `error` is the one reason for which `map` is refused: too many entries
/// comes first, then the longest key if a key is too long, then the longest
/// value.
pub open spec fn rejects_with(map: Map<Seq<char>, Seq<char>>, error: MetadataError) -> bool {
    match error {
        MetadataError::TooManyKeys => map.len() > MAX_ENTRIES,
        MetadataError::KeyTooLong(n) => {
            &&& map.len() <= MAX_ENTRIES
            &&& n > MAX_KEY_CHARS
            &&& is_longest_key(map, n as nat)
        },
        MetadataError::ValueTooLong(n) => {
            &&& map.len() <= MAX_ENTRIES
            &&& forall|k: Seq<char>| #[trigger] map.contains_key(k) ==> k.len() <= MAX_KEY_CHARS
            &&& n > MAX_VALUE_CHARS
            &&& is_longest_value(map, n as nat)
        },
    }
}

/// The reason, if any, for which binding `key` to `value` in `map` is
/// refused. A key that `map` already binds is not counted against the bound
/// on entries.
pub open spec fn insert_rejection(
    map: Map<Seq<char>, Seq<char>>,
    key: Seq<char>,
    value: Seq<char>,
) -> Option<MetadataError> {
    if map.len() >= MAX_ENTRIES && !map.contains_key(key) {
        Some(MetadataError::TooManyKeys)
    } else if key.len() > MAX_KEY_CHARS {
        Some(MetadataError::KeyTooLong(key.len() as usize))
    } else if value.len() > MAX_VALUE_CHARS {
        Some(MetadataError::ValueTooLong(value.len() as usize))
    } else {
        None
    }
}

/// `text` is a stored form of `map`: reading it gives `map`.
pub open spec fn stored_as(map: Map<Seq<char>, Seq<char>>, text: Seq<char>) -> bool {
    json_text_map(text) == Some(map)
}

/// `outcome` is what reading the stored form `text` gives: the mapping
/// written there, or `None` where `text` is no stored form of any.
pub open spec fn loaded_from(text: Seq<char>, outcome: Option<Map<Seq<char>, Seq<char>>>) -> bool {
    outcome == json_text_map(text)
}

/// Why a stored form was not taken: it is no JSON object of texts, or the
/// mapping in it is outside the limits.
#[derive(Debug)]
pub enum MetadataDecodeError {
    Malformed(serde_json::Error),
    Invalid(MetadataError),
}

/// A small bag of annotations: texts bound to distinct keys. A bag made by
/// `new`, `from_map` and `insert` is within the limits; one read back from
/// its stored form is taken as it is.
#[derive(Debug)]
pub struct Metadata {
    entries: Vec<(String, String)>,
}

impl View for Metadata {
    type V = Map<Seq<char>, Seq<char>>;

    closed spec fn view(&self) -> Map<Seq<char>, Seq<char>> {
        pairs_map(self.entries.deep_view())
    }
}

impl Metadata {
    #[verifier::type_invariant]
    spec fn keys_are_distinct(&self) -> bool {
        distinct_keys(self.entries.deep_view())
    }

    /// The place of `key` among the entries, if it is bound.
    fn position(&self, key: &String) -> (found: Option<usize>)
        ensures
            match found {
                Some(at) => at < self.entries.len() && self.entries.deep_view()[at as int].0
                    == key@,
                None => !has_key(self.entries.deep_view(), key@),
            },
            found is Some <==> self@.contains_key(key@),
    {
        proof {
            lemma_pairs_map_keys(self.entries.deep_view(), key@);
        }
        let mut at: usize = 0;
        while at < self.entries.len()
            invariant
                at <= self.entries.len(),
                forall|j: int| 0 <= j < at ==> self.entries.deep_view()[j].0 != key@,
            decreases self.entries.len() - at,
        {
            if self.entries[at].0 == *key {
                proof {
                    lemma_pairs_map_keys(self.entries.deep_view(), key@);
                    assert(self.entries.deep_view()[at as int].0 == key@);
                }
                return Some(at);
            }
            at += 1;
        }
        None
    }

    /// The empty bag.
    pub fn new() -> (metadata: Metadata)
        ensures
            metadata@ == Map::<Seq<char>, Seq<char>>::empty(),
            within_limits(metadata@),
    {
        let metadata = Metadata { entries: Vec::new() };
        assert(metadata.entries.deep_view() =~= Seq::<Pair>::empty());
        metadata
    }

    /// The number of entries.
    pub fn len(&self) -> (count: usize)
        ensures
            count == self@.len(),
    {
        proof {
            use_type_invariant(self);
            lemma_pairs_map_values(self.entries.deep_view());
        }
        self.entries.len()
    }

    /// Whether the bag holds nothing.
    pub fn is_empty(&self) -> (empty: bool)
        ensures
            empty == (self@.len() == 0),
            empty == (self@ == Map::<Seq<char>, Seq<char>>::empty()),
    {
        proof {
            use_type_invariant(self);
            lemma_pairs_map_values(self.entries.deep_view());
            if self.entries.len() == 0 {
                assert(self.entries.deep_view() =~= Seq::<Pair>::empty());
            }
        }
        self.entries.len() == 0
    }

    /// The value bound to `key`, if any.
    pub fn get(&self, key: &str) -> (value: Option<&String>)
        ensures
            match value {
                Some(text) => self@.contains_key(key@) && text@ == self@[key@],
                None => !self@.contains_key(key@),
            },
    {
        let owned = key.to_owned();
        match self.position(&owned) {
            Some(at) => {
                proof {
                    use_type_invariant(self);
                    lemma_pairs_map_values(self.entries.deep_view());
                    assert(self@[self.entries.deep_view()[at as int].0]
                        == self.entries.deep_view()[at as int].1);
                }
                Some(&self.entries[at].1)
            },
            None => None,
        }
    }

    /// Binds `key` to `value` without looking at the limits.
    fn upsert(&mut self, key: String, value: String)
        ensures
            final(self)@ == old(self)@.insert(key@, value@),
    {
        proof {
            use_type_invariant(&*self);
        }
        let ghost before = self.entries.deep_view();
        let found = self.position(&key);
        let mut entries: Vec<(String, String)> = Vec::new();
        assert(entries.deep_view() =~= Seq::<Pair>::empty());
        core::mem::swap(&mut self.entries, &mut entries);
        match found {
            Some(at) => {
                let _ = entries.remove(at);
                entries.insert(at, (key, value));
                proof {
                    assert(entries.deep_view() =~= before.update(
                        at as int,
                        (before[at as int].0, value@),
                    ));
                    lemma_pairs_map_update(before, at as int, value@);
                }
            },
            None => {
                entries.push((key, value));
                proof {
                    let after = entries.deep_view();
                    assert(after =~= before.push((key@, value@)));
                    assert(after.drop_last() =~= before);
                    assert forall|i: int, j: int| 0 <= i < j < after.len() implies after[i].0
                        != after[j].0 by {
                        if j == after.len() - 1 {
                            assert(before[i].0 != key@);
                        }
                    }
                }
            },
        }
        core::mem::swap(&mut self.entries, &mut entries);
    }

    /// Binds `key` to `value` if the limits allow it, and leaves the bag as
    /// it was if they do not.
    pub fn insert(&mut self, key: String, value: String) -> (outcome: Result<(), MetadataError>)
        ensures
            outcome is Ok <==> insert_rejection(old(self)@, key@, value@) is None,
            match outcome {
                Ok(()) => final(self)@ == old(self)@.insert(key@, value@),
                Err(error) => final(self)@ == old(self)@ && Some(error) == insert_rejection(
                    old(self)@,
                    key@,
                    value@,
                ),
            },
    {
        proof {
            use_type_invariant(&*self);
            lemma_pairs_map_values(self.entries.deep_view());
        }
        let found = self.position(&key);
        if self.entries.len() >= MAX_ENTRIES && found.is_none() {
            return Err(MetadataError::TooManyKeys);
        }
        let key_chars = key.as_str().unicode_len();
        if key_chars > MAX_KEY_CHARS {
            return Err(MetadataError::KeyTooLong(key_chars));
        }
        let value_chars = value.as_str().unicode_len();
        if value_chars > MAX_VALUE_CHARS {
            return Err(MetadataError::ValueTooLong(value_chars));
        }
        self.upsert(key, value);
        Ok(())
    }

    /// Unbinds `key` and hands back the value it had.
    pub fn remove(&mut self, key: &str) -> (removed: Option<String>)
        ensures
            final(self)@ == old(self)@.remove(key@),
            match removed {
                Some(text) => old(self)@.contains_key(key@) && text@ == old(self)@[key@],
                None => !old(self)@.contains_key(key@),
            },
    {
        proof {
            use_type_invariant(&*self);
            lemma_pairs_map_values(self.entries.deep_view());
        }
        let ghost before = self.entries.deep_view();
        let owned = key.to_owned();
        match self.position(&owned) {
            Some(at) => {
                let mut entries: Vec<(String, String)> = Vec::new();
                assert(entries.deep_view() =~= Seq::<Pair>::empty());
                core::mem::swap(&mut self.entries, &mut entries);
                let entry = entries.remove(at);
                proof {
                    assert(entries.deep_view() =~= before.remove(at as int));
                    lemma_pairs_map_remove(before, at as int);
                    assert(pairs_map(before)[before[at as int].0] == before[at as int].1);
                }
                core::mem::swap(&mut self.entries, &mut entries);
                Some(entry.1)
            },
            None => {
                assert(pairs_map(before).remove(key@) =~= pairs_map(before));
                None
            },
        }
    }

    /// Checks the limits: too many entries first, then the keys, then the
    /// values.
    pub fn validate(&self) -> (outcome: Result<(), MetadataError>)
        ensures
            outcome is Ok <==> within_limits(self@),
            outcome matches Err(error) ==> rejects_with(self@, error),
    {
        proof {
            use_type_invariant(self);
            lemma_pairs_map_values(self.entries.deep_view());
        }
        let ghost pairs = self.entries.deep_view();
        let count = self.entries.len();
        if count > MAX_ENTRIES {
            return Err(MetadataError::TooManyKeys);
        }
        let mut longest_key: usize = 0;
        let mut longest_value: usize = 0;
        let mut at: usize = 0;
        while at < count
            invariant
                at <= count,
                count == self.entries.len(),
                pairs == self.entries.deep_view(),
                forall|j: int| 0 <= j < at ==> (#[trigger] pairs[j]).0.len() <= longest_key,
                forall|j: int| 0 <= j < at ==> (#[trigger] pairs[j]).1.len() <= longest_value,
                at == 0 ==> longest_key == 0 && longest_value == 0,
                at > 0 ==> exists|j: int| 0 <= j < at && (#[trigger] pairs[j]).0.len() == longest_key,
                at > 0 ==> exists|j: int|
                    0 <= j < at && (#[trigger] pairs[j]).1.len() == longest_value,
            decreases count - at,
        {
            let key_chars = self.entries[at].0.as_str().unicode_len();
            let value_chars = self.entries[at].1.as_str().unicode_len();
            assert(pairs[at as int].0.len() == key_chars);
            assert(pairs[at as int].1.len() == value_chars);
            if at == 0 || key_chars > longest_key {
                longest_key = key_chars;
            }
            if at == 0 || value_chars > longest_value {
                longest_value = value_chars;
            }
            at += 1;
        }
        proof {
            let map = pairs_map(pairs);
            lemma_pairs_map_values(pairs);
            assert forall|k: Seq<char>| #[trigger] map.contains_key(k) implies k.len()
                <= longest_key && map[k].len() <= longest_value by {
                lemma_pairs_map_keys(pairs, k);
                let j = choose|j: int| 0 <= j < pairs.len() && #[trigger] pairs[j].0 == k;
                assert(map[pairs[j].0] == pairs[j].1);
            }
            if count > 0 {
                let jk = choose|j: int| 0 <= j < at && (#[trigger] pairs[j]).0.len() == longest_key;
                assert(map.contains_key(pairs[jk].0));
                let jv = choose|j: int|
                    0 <= j < at && (#[trigger] pairs[j]).1.len() == longest_value;
                assert(map.contains_key(pairs[jv].0) && map[pairs[jv].0] == pairs[jv].1);
            }
        }
        if longest_key > MAX_KEY_CHARS {
            Err(MetadataError::KeyTooLong(longest_key))
        } else if longest_value > MAX_VALUE_CHARS {
            Err(MetadataError::ValueTooLong(longest_value))
        } else {
            Ok(())
        }
    }

    /// Makes a bag of the given pairs, a later pair replacing an earlier one
    /// with the same key, and checks the limits on the result.
    pub fn from_map(map: Vec<(String, String)>) -> (outcome: Result<Metadata, MetadataError>)
        ensures
            outcome is Ok <==> within_limits(pairs_map(map.deep_view())),
            match outcome {
                Ok(metadata) => metadata@ == pairs_map(map.deep_view()),
                Err(error) => rejects_with(pairs_map(map.deep_view()), error),
            },
    {
        let metadata = Metadata::from_pairs(&map);
        match metadata.validate() {
            Ok(()) => Ok(metadata),
            Err(error) => Err(error),
        }
    }

    /// Makes a bag of the given pairs without looking at the limits.
    fn from_pairs(pairs: &Vec<(String, String)>) -> (metadata: Metadata)
        ensures
            metadata@ == pairs_map(pairs.deep_view()),
    {
        let mut metadata = Metadata::new();
        let mut at: usize = 0;
        assert(pairs.deep_view().take(0) =~= Seq::<Pair>::empty());
        while at < pairs.len()
            invariant
                at <= pairs.len(),
                metadata@ == pairs_map(pairs.deep_view().take(at as int)),
            decreases pairs.len() - at,
        {
            let key = pairs[at].0.clone();
            let value = pairs[at].1.clone();
            proof {
                let next = pairs.deep_view().take(at + 1);
                assert(next.drop_last() =~= pairs.deep_view().take(at as int));
                assert(next.last() == (key@, value@));
            }
            metadata.upsert(key, value);
            at += 1;
        }
        assert(pairs.deep_view().take(at as int) =~= pairs.deep_view());
        metadata
    }

    /// The entries, each key once, in the order in which the keys were first
    /// bound.
    pub fn as_map(&self) -> (entries: &Vec<(String, String)>)
        ensures
            distinct_keys(entries.deep_view()),
            pairs_map(entries.deep_view()) == self@,
    {
        proof {
            use_type_invariant(self);
        }
        &self.entries
    }

    /// Gives up the bag for its entries.
    pub fn into_inner(self) -> (entries: Vec<(String, String)>)
        ensures
            distinct_keys(entries.deep_view()),
            pairs_map(entries.deep_view()) == self@,
    {
        proof {
            use_type_invariant(&self);
        }
        self.entries
    }

    /// A copy of the entries, to walk over.
    pub fn iter(&self) -> (entries: Vec<(String, String)>)
        ensures
            distinct_keys(entries.deep_view()),
            pairs_map(entries.deep_view()) == self@,
    {
        proof {
            use_type_invariant(self);
        }
        let mut entries: Vec<(String, String)> = Vec::new();
        let mut at: usize = 0;
        while at < self.entries.len()
            invariant
                at <= self.entries.len(),
                entries.deep_view() == self.entries.deep_view().take(at as int),
            decreases self.entries.len() - at,
        {
            let ghost before = entries.deep_view();
            let key = self.entries[at].0.clone();
            let value = self.entries[at].1.clone();
            entries.push((key, value));
            assert(entries.deep_view() =~= before.push((key@, value@)));
            assert(entries.deep_view() =~= self.entries.deep_view().take(at + 1));
            at += 1;
        }
        assert(self.entries.deep_view().take(at as int) =~= self.entries.deep_view());
        entries
    }

    /// The mapping of a bag has finitely many entries.
    pub proof fn lemma_finite(self)
        ensures
            self@.dom().finite(),
    {
        lemma_pairs_map_keys(self.entries.deep_view(), Seq::empty());
    }

    /// The stored form: a JSON object with one text member for each entry,
    /// in no fixed order. The writing of a bag always succeeds.
    pub fn to_json(&self) -> (encoded: Result<String, serde_json::Error>)
        ensures
            encoded matches Ok(text) && stored_as(self@, text@),
    {
        proof {
            use_type_invariant(self);
        }
        encode_text_map(&self.entries)
    }

    /// Reads a stored form. What the store holds was checked when it was
    /// written, so the limits are not looked at again here.
    pub fn from_json(json_str: &str) -> (decoded: Result<Metadata, serde_json::Error>)
        ensures
            loaded_from(
                json_str@,
                match decoded {
                    Ok(metadata) => Some(metadata@),
                    Err(_) => None,
                },
            ),
    {
        match decode_text_map(json_str) {
            Ok(entries) => Ok(Metadata { entries }),
            Err(error) => Err(error),
        }
    }

    /// Reads a stored form and checks the limits, as for a mapping that
    /// comes from outside.
    pub fn from_json_checked(json_str: &str) -> (decoded: Result<Metadata, MetadataDecodeError>)
        ensures
            match decoded {
                Ok(metadata) => json_text_map(json_str@) == Some(metadata@) && within_limits(
                    metadata@,
                ),
                Err(MetadataDecodeError::Malformed(_)) => json_text_map(json_str@) is None,
                Err(MetadataDecodeError::Invalid(error)) => json_text_map(json_str@) is Some
                    && rejects_with(json_text_map(json_str@).unwrap(), error),
            },
    {
        match Metadata::from_json(json_str) {
            Ok(metadata) => match metadata.validate() {
                Ok(()) => Ok(metadata),
                Err(error) => Err(MetadataDecodeError::Invalid(error)),
            },
            Err(error) => Err(MetadataDecodeError::Malformed(error)),
        }
    }
}

impl Default for Metadata {
    fn default() -> (metadata: Metadata)
        ensures
            metadata@ == Map::<Seq<char>, Seq<char>>::empty(),
    {
        Metadata::new()
    }
}

impl Clone for Metadata {
    fn clone(&self) -> (copy: Metadata)
        ensures
            copy@ == self@,
    {
        proof {
            use_type_invariant(self);
        }
        Metadata { entries: self.iter() }
    }
}

/// A mapping is refused for one reason only: the error is fixed by the
/// mapping, whatever the order of its entries.
pub proof fn lemma_rejection_is_unique(
    map: Map<Seq<char>, Seq<char>>,
    first: MetadataError,
    second: MetadataError,
)
    requires
        rejects_with(map, first),
        rejects_with(map, second),
    ensures
        first == second,
{
    match (first, second) {
        (MetadataError::KeyTooLong(m), MetadataError::KeyTooLong(n)) => {
            let km = choose|k: Seq<char>| #[trigger] map.contains_key(k) && k.len() == m as nat;
            let kn = choose|k: Seq<char>| #[trigger] map.contains_key(k) && k.len() == n as nat;
            assert(km.len() <= n && kn.len() <= m);
        },
        (MetadataError::ValueTooLong(m), MetadataError::ValueTooLong(n)) => {
            let km = choose|k: Seq<char>|
                map.contains_key(k) && (#[trigger] map[k]).len() == m as nat;
            let kn = choose|k: Seq<char>|
                map.contains_key(k) && (#[trigger] map[k]).len() == n as nat;
            assert(map[km].len() <= n && map[kn].len() <= m);
        },
        (MetadataError::KeyTooLong(m), MetadataError::ValueTooLong(_)) => {
            let km = choose|k: Seq<char>| #[trigger] map.contains_key(k) && k.len() == m as nat;
            assert(km.len() <= MAX_KEY_CHARS);
        },
        (MetadataError::ValueTooLong(_), MetadataError::KeyTooLong(n)) => {
            let kn = choose|k: Seq<char>| #[trigger] map.contains_key(k) && k.len() == n as nat;
            assert(kn.len() <= MAX_KEY_CHARS);
        },
        _ => {},
    }
}

/// A mapping that breaks a bound is refused, and the error names a bound
/// that is broken: too many entries, a key that is too long, or a value that
/// is too long. A mapping within the limits is refused for no reason.
pub proof fn lemma_rejection_names_a_broken_bound(
    map: Map<Seq<char>, Seq<char>>,
    error: MetadataError,
)
    requires
        rejects_with(map, error),
    ensures
        !within_limits(map),
        error is TooManyKeys ==> map.len() > MAX_ENTRIES,
        error is KeyTooLong ==> exists|k: Seq<char>|
            #[trigger] map.contains_key(k) && k.len() > MAX_KEY_CHARS,
        error is ValueTooLong ==> exists|k: Seq<char>|
            map.contains_key(k) && (#[trigger] map[k]).len() > MAX_VALUE_CHARS,
{
    match error {
        MetadataError::KeyTooLong(n) => {
            let k = choose|k: Seq<char>| #[trigger] map.contains_key(k) && k.len() == n as nat;
            assert(map.contains_key(k) && k.len() > MAX_KEY_CHARS);
        },
        MetadataError::ValueTooLong(n) => {
            let k = choose|k: Seq<char>|
                map.contains_key(k) && (#[trigger] map[k]).len() == n as nat;
            assert(map.contains_key(k) && map[k].len() > MAX_VALUE_CHARS);
        },
        MetadataError::TooManyKeys => {},
    }
}

/// A mapping within the limits is accepted, and what is read from a stored
/// form of it is the same mapping.
pub proof fn lemma_valid_map_round_trips(
    map: Map<Seq<char>, Seq<char>>,
    text: Seq<char>,
    outcome: Option<Map<Seq<char>, Seq<char>>>,
)
    requires
        within_limits(map),
        stored_as(map, text),
        loaded_from(text, outcome),
    ensures
        forall|error: MetadataError| !rejects_with(map, error),
        outcome == Some(map),
{
    assert forall|error: MetadataError| !rejects_with(map, error) by {
        if rejects_with(map, error) {
            lemma_rejection_names_a_broken_bound(map, error);
        }
    }
}

/// In a bag of 16 entries a new key is refused for want of room, while a
/// key that is bound can be bound again, within the limits on key and
/// value, and the bag keeps its 16 entries.
pub proof fn lemma_insert_into_full_bag(
    map: Map<Seq<char>, Seq<char>>,
    key: Seq<char>,
    value: Seq<char>,
)
    requires
        map.dom().finite(),
        map.len() == MAX_ENTRIES,
    ensures
        !map.contains_key(key) ==> insert_rejection(map, key, value) == Some(
            MetadataError::TooManyKeys,
        ),
        map.contains_key(key) && key.len() <= MAX_KEY_CHARS && value.len() <= MAX_VALUE_CHARS
            ==> insert_rejection(map, key, value) is None && map.insert(key, value).len()
            == map.len(),
{
    if map.contains_key(key) {
        assert(map.insert(key, value).dom() =~= map.dom());
    }
}

} // verus!
