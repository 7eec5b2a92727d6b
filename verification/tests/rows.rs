use responses_core::database::{InputItem, OutputItem, ResponseSession};
use responses_core::responses::ResponseRequest;
use responses_core::rows::{read_role, write_role, InputItemRow, OutputItemRow, ResponseRow};
use responses_core::types::metadata::MetadataDecodeError;
use responses_core::types::{FloatBits, Metadata, MetadataError, Role};

fn row(metadata: Option<&str>) -> ResponseRow {
    ResponseRow {
        id: "resp_1".to_string(),
        object: "response".to_string(),
        created_at: 42,
        status: "completed".to_string(),
        model: "m".to_string(),
        previous_response_id: Some("resp_0".to_string()),
        instructions: Some("be kind".to_string()),
        max_output_tokens: Some(7),
        temperature: Some(FloatBits::from_bits(0.5f64.to_bits())),
        top_p: None,
        store: true,
        metadata: metadata.map(|m| m.to_string()),
        user_id: None,
        safety_identifier: Some("s".to_string()),
        prompt_cache_key: None,
        usage_input_tokens: Some(1),
        usage_output_tokens: Some(2),
        usage_total_tokens: Some(3),
        error: None,
        incomplete_details: Some("{}".to_string()),
    }
}

#[test]
fn response_row_is_read_column_by_column() {
    let read = ResponseSession::from_row(row(Some("{\"a\":\"b\"}"))).unwrap();
    assert_eq!(read.id, "resp_1");
    assert_eq!(read.object, "response");
    assert_eq!(read.created_at, 42);
    assert_eq!(read.status, "completed");
    assert_eq!(read.model, "m");
    assert_eq!(read.previous_response_id, Some("resp_0".to_string()));
    assert_eq!(read.instructions, Some("be kind".to_string()));
    assert_eq!(read.max_output_tokens, Some(7));
    assert_eq!(read.temperature.map(|t| f64::from_bits(t.to_bits())), Some(0.5));
    assert_eq!(read.top_p, None);
    assert!(read.store);
    assert_eq!(read.metadata.as_ref().unwrap().len(), 1);
    assert_eq!(read.metadata.as_ref().unwrap().get("a"), Some(&"b".to_string()));
    assert_eq!(read.user_id, None);
    assert_eq!(read.safety_identifier, Some("s".to_string()));
    assert_eq!(read.usage_input_tokens, Some(1));
    assert_eq!(read.usage_output_tokens, Some(2));
    assert_eq!(read.usage_total_tokens, Some(3));
    assert_eq!(read.error, None);
    assert_eq!(read.incomplete_details, Some("{}".to_string()));
}

#[test]
fn response_row_without_metadata() {
    let read = ResponseSession::from_row(row(None)).unwrap();
    assert!(read.metadata.is_none());
}

#[test]
fn response_row_with_bad_metadata_is_refused() {
    assert!(matches!(
        ResponseSession::from_row(row(Some("nonsense"))),
        Err(MetadataDecodeError::Malformed(_))
    ));
    let long = format!("{{\"k\":\"{}\"}}", "v".repeat(513));
    match ResponseSession::from_row(row(Some(&long))) {
        Err(MetadataDecodeError::Invalid(error)) => {
            assert_eq!(error, MetadataError::ValueTooLong(513))
        }
        other => panic!("unexpected outcome: {:?}", other.map(|r| r.id)),
    }
}

#[test]
fn response_is_written_and_read_back() {
    let mut read = ResponseSession::from_row(row(None)).unwrap();
    read.metadata = Some(
        Metadata::from_map(vec![
            ("a".to_string(), "1".to_string()),
            ("b".to_string(), "2".to_string()),
        ])
        .unwrap(),
    );
    let written = read.to_row().unwrap();
    assert_eq!(written.id, "resp_1");
    assert_eq!(written.status, "completed");
    assert_eq!(written.previous_response_id, Some("resp_0".to_string()));
    assert_eq!(written.temperature, Some(FloatBits::from_bits(0.5f64.to_bits())));
    assert!(written.metadata.is_some());
    let again = ResponseSession::from_row(written).unwrap();
    assert!(again.metadata == read.metadata);
    assert_eq!(again.instructions, read.instructions);
    assert_eq!(again.usage_total_tokens, Some(3));
    let none = ResponseSession::from_row(row(None)).unwrap().to_row().unwrap();
    assert_eq!(none.metadata, None);
}

#[test]
fn role_columns() {
    assert_eq!(read_role(&None), (None, false));
    assert_eq!(read_role(&Some("system".to_string())), (Some(Role::System), false));
    assert_eq!(read_role(&Some("assistant".to_string())), (Some(Role::Assistant), false));
    assert_eq!(read_role(&Some("robot".to_string())), (Some(Role::User), true));
    assert_eq!(write_role(&None), None);
    assert_eq!(write_role(&Some(Role::Assistant)), Some("assistant".to_string()));
    assert_eq!(write_role(&Some(Role::User)), Some("user".to_string()));
}

#[test]
fn input_item_rows() {
    let row = InputItemRow {
        id: "i".to_string(),
        response_id: "r".to_string(),
        item_type: "message".to_string(),
        role: Some("system".to_string()),
        content: "{}".to_string(),
        created_at: 9,
    };
    let (item, coerced) = InputItem::from_row(row);
    assert!(!coerced);
    assert_eq!(item.id, "i");
    assert_eq!(item.response_id, "r");
    assert_eq!(item.item_type, "message");
    assert_eq!(item.role, Some(Role::System));
    assert_eq!(item.content, "{}");
    assert_eq!(item.created_at, 9);
    let back = item.to_row();
    assert_eq!(back.role, Some("system".to_string()));
    assert_eq!(back.id, "i");
    assert_eq!(back.created_at, 9);
    let strange = InputItemRow {
        id: "i".to_string(),
        response_id: "r".to_string(),
        item_type: "message".to_string(),
        role: Some("narrator".to_string()),
        content: "{}".to_string(),
        created_at: 9,
    };
    let (item, coerced) = InputItem::from_row(strange);
    assert!(coerced);
    assert_eq!(item.role, Some(Role::User));
}

#[test]
fn output_item_rows() {
    let row = OutputItemRow {
        id: "o".to_string(),
        response_id: "r".to_string(),
        item_type: "tool_call".to_string(),
        role: None,
        content: "[]".to_string(),
        status: "completed".to_string(),
        created_at: -1,
    };
    let (item, coerced) = OutputItem::from_row(row);
    assert!(!coerced);
    assert_eq!(item.role, None);
    assert_eq!(item.status, "completed");
    assert_eq!(item.item_type, "tool_call");
    assert_eq!(item.created_at, -1);
    let back = item.to_row();
    assert_eq!(back.role, None);
    assert_eq!(back.status, "completed");
    assert_eq!(back.content, "[]");
}

fn is_hex_id(id: &str, prefix: &str) -> bool {
    id.starts_with(prefix)
        && id.len() == prefix.len() + 32
        && id[prefix.len()..].chars().all(|c| c.is_ascii_digit() || ('a'..='f').contains(&c))
}

#[test]
fn fresh_identifiers() {
    let first = ResponseRequest::generate_id();
    let second = ResponseRequest::generate_id();
    assert!(is_hex_id(&first, "resp_"));
    assert!(is_hex_id(&second, "resp_"));
    assert_ne!(first, second);
    let message = ResponseRequest::generate_message_id();
    assert!(is_hex_id(&message, "msg_"));
    assert_eq!(message.len(), 36);
    assert_ne!(message, ResponseRequest::generate_message_id());
}
