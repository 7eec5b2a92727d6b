//! Records as the persistent store keeps them, in plain columns, and their
//! reading into and writing from the records of the library. A bag of
//! metadata is kept as JSON text, a role as its name.

use crate::database::{
    copy_text, InputItem, InputItemView, OutputItem, OutputItemView, ResponseSession,
    ResponseSessionView,
};
use crate::json::json_text_map;
use crate::text::{has_prefix, starts_with};
use crate::types::metadata::{rejects_with, stored_as, within_limits, Metadata, MetadataDecodeError};
use crate::types::number::FloatBits;
use crate::types::role::Role;
use vstd::prelude::*;
use vstd::string::*;

verus! {

/// The address under which the store at `path` is opened: `path` itself
/// where it is an address already, and otherwise `path` as a file that is
/// made if it is missing.
pub open spec fn database_url_of(path: Seq<char>) -> Seq<char> {
    if has_prefix(path, "sqlite:"@) || has_prefix(path, "file:"@) {
        path
    } else {
        "sqlite:"@ + path + "?mode=rwc"@
    }
}

/// The address under which the store at `database_path` is opened.
pub fn database_url(database_path: &str) -> (url: String)
    ensures
        url@ == database_url_of(database_path@),
{
    if starts_with(database_path, "sqlite:") || starts_with(database_path, "file:") {
        database_path.to_owned()
    } else {
        let mut url = "sqlite:".to_owned();
        url.append(database_path);
        url.append("?mode=rwc");
        url
    }
}

/// Whether a removal that touched `rows_affected` rows removed anything.
pub fn removed_any(rows_affected: u64) -> (removed: bool)
    ensures
        removed == (rows_affected > 0),
{
    rows_affected > 0
}

/// A response as a row of columns.
#[derive(Debug)]
pub struct ResponseRow {
    pub id: String,
    pub object: String,
    pub created_at: i64,
    pub status: String,
    pub model: String,
    pub previous_response_id: Option<String>,
    pub instructions: Option<String>,
    pub max_output_tokens: Option<i64>,
    pub temperature: Option<FloatBits>,
    pub top_p: Option<FloatBits>,
    pub store: bool,
    pub metadata: Option<String>,
    pub user_id: Option<String>,
    pub safety_identifier: Option<String>,
    pub prompt_cache_key: Option<String>,
    pub usage_input_tokens: Option<i64>,
    pub usage_output_tokens: Option<i64>,
    pub usage_total_tokens: Option<i64>,
    pub error: Option<String>,
    pub incomplete_details: Option<String>,
}

impl ResponseRow {
    /// The response that the row stands for, with `metadata` for what its
    /// metadata column holds.
    pub open spec fn session(self, metadata: Option<Map<Seq<char>, Seq<char>>>) -> ResponseSessionView {
        ResponseSessionView {
            id: self.id@,
            object: self.object@,
            created_at: self.created_at,
            status: self.status@,
            model: self.model@,
            previous_response_id: self.previous_response_id.deep_view(),
            instructions: self.instructions.deep_view(),
            max_output_tokens: self.max_output_tokens,
            temperature: self.temperature,
            top_p: self.top_p,
            store: self.store,
            metadata,
            user_id: self.user_id.deep_view(),
            safety_identifier: self.safety_identifier.deep_view(),
            prompt_cache_key: self.prompt_cache_key.deep_view(),
            usage_input_tokens: self.usage_input_tokens,
            usage_output_tokens: self.usage_output_tokens,
            usage_total_tokens: self.usage_total_tokens,
            error: self.error.deep_view(),
            incomplete_details: self.incomplete_details.deep_view(),
        }
    }

    /// What the metadata column holds: no bag, or the mapping written in
    /// its text (`None` inside where the text is no stored form).
    pub open spec fn metadata_read(self) -> Option<Option<Map<Seq<char>, Seq<char>>>> {
        match self.metadata {
            Some(text) => Some(json_text_map(text@)),
            None => None,
        }
    }
}

impl ResponseSession {
    /// Reads a response from its row. The metadata column is read with the
    /// limits checked; a row is refused for that column alone.
    pub fn from_row(row: ResponseRow) -> (read: Result<ResponseSession, MetadataDecodeError>)
        ensures
            match read {
                Ok(response) => match row.metadata_read() {
                    None => response@ == row.session(None),
                    Some(found) => found is Some && within_limits(found.unwrap()) && response@
                        == row.session(found),
                },
                Err(MetadataDecodeError::Malformed(_)) => row.metadata_read() == Some(
                    None::<Map<Seq<char>, Seq<char>>>,
                ),
                Err(MetadataDecodeError::Invalid(error)) => row.metadata_read() matches Some(
                    Some(map),
                ) && rejects_with(map, error),
            },
    {
        let metadata = match &row.metadata {
            Some(text) => match Metadata::from_json_checked(text.as_str()) {
                Ok(metadata) => Some(metadata),
                Err(error) => {
                    return Err(error);
                },
            },
            None => None,
        };
        Ok(
            ResponseSession {
                id: row.id,
                object: row.object,
                created_at: row.created_at,
                status: row.status,
                model: row.model,
                previous_response_id: row.previous_response_id,
                instructions: row.instructions,
                max_output_tokens: row.max_output_tokens,
                temperature: row.temperature,
                top_p: row.top_p,
                store: row.store,
                metadata,
                user_id: row.user_id,
                safety_identifier: row.safety_identifier,
                prompt_cache_key: row.prompt_cache_key,
                usage_input_tokens: row.usage_input_tokens,
                usage_output_tokens: row.usage_output_tokens,
                usage_total_tokens: row.usage_total_tokens,
                error: row.error,
                incomplete_details: row.incomplete_details,
            },
        )
    }

    /// Writes a response as a row, which always succeeds. The metadata is
    /// written in its stored form; the row reads as this response again.
    pub fn to_row(&self) -> (written: Result<ResponseRow, serde_json::Error>)
        ensures
            written matches Ok(row) && {
                &&& row.metadata is Some <==> self.metadata is Some
                &&& row.metadata matches Some(text) ==> stored_as(self.metadata.unwrap()@, text@)
                &&& row.session(self@.metadata) == self@
            },
    {
        let metadata = match &self.metadata {
            Some(metadata) => match metadata.to_json() {
                Ok(text) => Some(text),
                Err(error) => {
                    return Err(error);
                },
            },
            None => None,
        };
        Ok(
            ResponseRow {
                id: self.id.clone(),
                object: self.object.clone(),
                created_at: self.created_at,
                status: self.status.clone(),
                model: self.model.clone(),
                previous_response_id: copy_text(&self.previous_response_id),
                instructions: copy_text(&self.instructions),
                max_output_tokens: self.max_output_tokens,
                temperature: self.temperature,
                top_p: self.top_p,
                store: self.store,
                metadata,
                user_id: copy_text(&self.user_id),
                safety_identifier: copy_text(&self.safety_identifier),
                prompt_cache_key: copy_text(&self.prompt_cache_key),
                usage_input_tokens: self.usage_input_tokens,
                usage_output_tokens: self.usage_output_tokens,
                usage_total_tokens: self.usage_total_tokens,
                error: copy_text(&self.error),
                incomplete_details: copy_text(&self.incomplete_details),
            },
        )
    }
}

/// The role that a role column stands for: none where the column is empty,
/// and otherwise the role of that name, `User` for a name that is none.
pub open spec fn role_read(column: Option<String>) -> Option<Role> {
    match column {
        Some(text) => Some(Role::coerce(text@)),
        None => None,
    }
}

/// Whether a role column holds a name that is no role's.
pub open spec fn role_is_strange(column: Option<String>) -> bool {
    column matches Some(text) && !Role::is_known(text@)
}

/// Reads a role column, and says whether its text had to be coerced.
pub fn read_role(column: &Option<String>) -> (read: (Option<Role>, bool))
    ensures
        read.0 == role_read(*column),
        read.1 == role_is_strange(*column),
{
    match column {
        Some(text) => {
            let parsed = Role::parse_lenient(text.as_str());
            (Some(parsed.0), parsed.1)
        },
        None => (None, false),
    }
}

/// Writes a role for its column.
pub fn write_role(role: &Option<Role>) -> (column: Option<String>)
    ensures
        column.deep_view() == match *role {
            Some(role) => Some(role.name()),
            None => None,
        },
{
    match role {
        Some(role) => Some(role.to_string()),
        None => None,
    }
}

/// An input item as a row of columns.
#[derive(Debug)]
pub struct InputItemRow {
    pub id: String,
    pub response_id: String,
    pub item_type: String,
    pub role: Option<String>,
    pub content: String,
    pub created_at: i64,
}

impl InputItemRow {
    /// The item that the row stands for.
    pub open spec fn item(self) -> InputItemView {
        InputItemView {
            id: self.id@,
            response_id: self.response_id@,
            item_type: self.item_type@,
            role: role_read(self.role),
            content: self.content@,
            created_at: self.created_at,
        }
    }
}

impl InputItem {
    /// Reads an item from its row, and says whether the role had to be
    /// coerced.
    pub fn from_row(row: InputItemRow) -> (read: (InputItem, bool))
        ensures
            read.0@ == row.item(),
            read.1 == role_is_strange(row.role),
    {
        let role = read_role(&row.role);
        (
            InputItem {
                id: row.id,
                response_id: row.response_id,
                item_type: row.item_type,
                role: role.0,
                content: row.content,
                created_at: row.created_at,
            },
            role.1,
        )
    }

    /// Writes an item as a row, which reads as this item again.
    pub fn to_row(&self) -> (row: InputItemRow)
        ensures
            row.item() == self@,
            !role_is_strange(row.role),
    {
        proof {
            Role::lemma_names_distinct();
        }
        InputItemRow {
            id: self.id.clone(),
            response_id: self.response_id.clone(),
            item_type: self.item_type.clone(),
            role: write_role(&self.role),
            content: self.content.clone(),
            created_at: self.created_at,
        }
    }
}

/// An output item as a row of columns.
#[derive(Debug)]
pub struct OutputItemRow {
    pub id: String,
    pub response_id: String,
    pub item_type: String,
    pub role: Option<String>,
    pub content: String,
    pub status: String,
    pub created_at: i64,
}

impl OutputItemRow {
    /// The item that the row stands for.
    pub open spec fn item(self) -> OutputItemView {
        OutputItemView {
            id: self.id@,
            response_id: self.response_id@,
            item_type: self.item_type@,
            role: role_read(self.role),
            content: self.content@,
            status: self.status@,
            created_at: self.created_at,
        }
    }
}

impl OutputItem {
    /// Reads an item from its row, and says whether the role had to be
    /// coerced.
    pub fn from_row(row: OutputItemRow) -> (read: (OutputItem, bool))
        ensures
            read.0@ == row.item(),
            read.1 == role_is_strange(row.role),
    {
        let role = read_role(&row.role);
        (
            OutputItem {
                id: row.id,
                response_id: row.response_id,
                item_type: row.item_type,
                role: role.0,
                content: row.content,
                status: row.status,
                created_at: row.created_at,
            },
            role.1,
        )
    }

    /// Writes an item as a row, which reads as this item again.
    pub fn to_row(&self) -> (row: OutputItemRow)
        ensures
            row.item() == self@,
            !role_is_strange(row.role),
    {
        proof {
            Role::lemma_names_distinct();
        }
        OutputItemRow {
            id: self.id.clone(),
            response_id: self.response_id.clone(),
            item_type: self.item_type.clone(),
            role: write_role(&self.role),
            content: self.content.clone(),
            status: self.status.clone(),
            created_at: self.created_at,
        }
    }
}

} // verus!
