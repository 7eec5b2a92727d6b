//! Identifiers of responses and of messages: a prefix that tells the two
//! kinds apart, then a random part of 32 hexadecimal digits.

use vstd::prelude::*;
use vstd::string::*;

verus! {

/// A digit, or a letter from `a` to `f`.
pub open spec fn is_lower_hex(c: char) -> bool {
    ('0' <= c && c <= '9') || ('a' <= c && c <= 'f')
}

/// `id` is `prefix` followed by 32 lower-case hexadecimal digits.
pub open spec fn has_prefix_and_hex(id: Seq<char>, prefix: Seq<char>) -> bool {
    &&& id.len() == prefix.len() + 32
    &&& id.subrange(0, prefix.len() as int) == prefix
    &&& forall|i: int| prefix.len() <= i < id.len() ==> is_lower_hex(#[trigger] id[i])
}

/// The shape of a response's identifier.
pub open spec fn is_response_id(id: Seq<char>) -> bool {
    has_prefix_and_hex(id, "resp_"@)
}

/// The shape of a message's identifier.
pub open spec fn is_message_id(id: Seq<char>) -> bool {
    has_prefix_and_hex(id, "msg_"@)
}

/// Calls `uuid::Uuid::new_v4` and writes the identifier with
/// `uuid::Uuid::simple`. Trusted: the text has 32 characters, each a
/// lower-case hexadecimal digit. Which digits is a matter of chance.
#[verifier::external_body]
fn random_hex() -> (text: String)
    ensures
        text@.len() == 32,
        forall|i: int| 0 <= i < 32 ==> is_lower_hex(#[trigger] text@[i]),
{
    uuid::Uuid::new_v4().simple().to_string()
}

/// `prefix` followed by a fresh random part.
pub(crate) fn prefixed(prefix: &str) -> (id: String)
    ensures
        has_prefix_and_hex(id@, prefix@),
{
    let random = random_hex();
    let mut id = prefix.to_owned();
    id.append(random.as_str());
    assert(id@.subrange(0, prefix@.len() as int) =~= prefix@);
    assert forall|i: int| prefix@.len() <= i < id@.len() implies is_lower_hex(#[trigger] id@[i]) by {
        assert(id@[i] == random@[i - prefix@.len()]);
    }
    id
}

} // verus!
