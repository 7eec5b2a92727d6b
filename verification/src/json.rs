//! What the library has from `serde_json`: the reading and writing of a flat
//! object of texts, the reading of a document and of the texts in it, and
//! the object inside a JSON value. Nothing here is proved; each contract
//! says what is taken on trust.

use crate::assoc::{distinct_keys, pairs_map};
use std::collections::HashMap;
use vstd::prelude::*;

verus! {

/// `serde_json::Error`: carried to the caller, never read.
#[verifier::external_type_specification]
#[verifier::external_body]
pub struct ExJsonError(serde_json::Error);

/// `serde_json::Value`: a JSON document, read only through the functions below.
#[verifier::external_type_specification]
#[verifier::external_body]
pub struct ExJsonValue(serde_json::Value);

/// `serde_json::Map`: the members of a JSON object, carried and never read.
#[verifier::external_type_specification]
#[verifier::external_body]
#[verifier::reject_recursive_types(K)]
#[verifier::reject_recursive_types(V)]
pub struct ExJsonMap<K, V>(serde_json::Map<K, V>);

/// The mapping that `serde_json::from_str` reads from `text` when asked for
/// a map from strings to strings, and `None` where it reports an error.
pub uninterp spec fn json_text_map(text: Seq<char>) -> Option<Map<Seq<char>, Seq<char>>>;

/// The object that `serde_json::Value::as_object` finds in `value`: its
/// members where the value is a JSON object, `None` for every other value.
pub uninterp spec fn json_object_of(value: serde_json::Value) -> Option<
    serde_json::Map<String, serde_json::Value>,
>;

/// Calls `serde_json::from_str` for a `HashMap<String, String>` and hands the
/// entries out as pairs, in no particular order. Trusted: the call succeeds
/// exactly on the texts for which `json_text_map` is defined, and the pairs,
/// whose keys are distinct as those of a hash map are, make up that mapping.
#[verifier::external_body]
pub(crate) fn decode_text_map(text: &str) -> (decoded: Result<
    Vec<(String, String)>,
    serde_json::Error,
>)
    ensures
        match decoded {
            Ok(entries) => distinct_keys(entries.deep_view()) && json_text_map(text@) == Some(
                pairs_map(entries.deep_view()),
            ),
            Err(_) => json_text_map(text@) is None,
        },
{
    let map: HashMap<String, String> = serde_json::from_str(text)?;
    Ok(map.into_iter().collect())
}

/// Calls `serde_json::to_string` on the pairs gathered into a
/// `HashMap<String, String>`; the keys are distinct, so each pair becomes
/// one entry. Trusted: the call succeeds, and the text that comes back is
/// one from which `serde_json::from_str` reads the same mapping again.
/// Success is taken from the function's source and from what its
/// documentation gives as the reasons for an error: a `Serialize` that
/// chooses to fail, and a map whose keys are no strings. Neither is so of
/// a map from strings to strings, and the text is written to memory, where
/// no write fails. The order of the members in the text is not fixed.
#[verifier::external_body]
pub(crate) fn encode_text_map(entries: &Vec<(String, String)>) -> (encoded: Result<
    String,
    serde_json::Error,
>)
    requires
        distinct_keys(entries.deep_view()),
    ensures
        encoded is Ok,
        encoded matches Ok(text) ==> json_text_map(text@) == Some(pairs_map(entries.deep_view())),
{
    let map: HashMap<String, String> = entries.iter().cloned().collect();
    serde_json::to_string(&map)
}

/// Calls `serde_json::Value::as_object` and clones what it finds. Trusted:
/// the result is the object named by `json_object_of`.
#[verifier::external_body]
pub(crate) fn value_object(value: &serde_json::Value) -> (object: Option<
    serde_json::Map<String, serde_json::Value>,
>)
    ensures
        object == json_object_of(*value),
{
    value.as_object().cloned()
}

/// The JSON document that `serde_json::from_str` reads from `text`, and
/// `None` where it reports an error.
pub uninterp spec fn json_document(text: Seq<char>) -> Option<serde_json::Value>;

/// The text that `serde_json::Value::pointer` finds at `pointer` in
/// `document`, where what stands there is a JSON string. `None` where
/// nothing stands at `pointer`, and where what stands there is no string.
pub uninterp spec fn json_text_at(document: serde_json::Value, pointer: Seq<char>) -> Option<
    Seq<char>,
>;

/// Calls `serde_json::from_str` for a `serde_json::Value`. Trusted: the
/// result is the document named by `json_document`.
#[verifier::external_body]
pub(crate) fn parse_document(text: &str) -> (document: Option<serde_json::Value>)
    ensures
        document == json_document(text@),
{
    serde_json::from_str(text).ok()
}

/// Calls `serde_json::Value::pointer` and takes the text out of a JSON
/// string with `serde_json::Value::as_str`. Trusted: the result is the text
/// named by `json_text_at`.
#[verifier::external_body]
pub(crate) fn text_at(document: &serde_json::Value, pointer: &str) -> (found: Option<String>)
    ensures
        found.deep_view() == json_text_at(*document, pointer@),
{
    document.pointer(pointer)?.as_str().map(str::to_owned)
}

} // verus!
