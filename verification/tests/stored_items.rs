use responses_core::database::InputItem as StoredItem;
use responses_core::responses::{InputContent, InputItem, TranslationError};
use responses_core::types::Role;

fn stored(id: &str, item_type: &str, role: Option<Role>, content: &str) -> StoredItem {
    StoredItem {
        id: id.to_string(),
        response_id: "resp".to_string(),
        item_type: item_type.to_string(),
        role,
        content: content.to_string(),
        created_at: 0,
    }
}

#[test]
fn text_content_is_read() {
    match InputContent::from_json("{\"text\": \"hello\"}") {
        Some(InputContent::Text { text }) => assert_eq!(text, "hello"),
        other => panic!("unexpected content: {:?}", other),
    }
    match InputContent::from_json("{\"type\":\"input_text\",\"role\":\"user\",\"text\":\"\"}") {
        Some(InputContent::Text { text }) => assert_eq!(text, ""),
        other => panic!("unexpected content: {:?}", other),
    }
}

#[test]
fn image_content_is_read() {
    match InputContent::from_json("{\"image_url\": {\"url\": \"http://x/y.png\"}, \"detail\": \"low\"}") {
        Some(InputContent::Image { image_url, detail }) => {
            assert_eq!(image_url.url, "http://x/y.png");
            assert_eq!(detail, Some("low".to_string()));
        }
        other => panic!("unexpected content: {:?}", other),
    }
    match InputContent::from_json("{\"image_url\": {\"url\": \"u\"}}") {
        Some(InputContent::Image { image_url, detail }) => {
            assert_eq!(image_url.url, "u");
            assert_eq!(detail, None);
        }
        other => panic!("unexpected content: {:?}", other),
    }
}

#[test]
fn file_content_is_read() {
    match InputContent::from_json("{\"file_id\": \"f1\", \"purpose\": \"assistants\"}") {
        Some(InputContent::File { file_id, purpose }) => {
            assert_eq!(file_id, "f1");
            assert_eq!(purpose, Some("assistants".to_string()));
        }
        other => panic!("unexpected content: {:?}", other),
    }
    match InputContent::from_json("{\"file_id\": \"f2\", \"purpose\": 3}") {
        Some(InputContent::File { file_id, purpose }) => {
            assert_eq!(file_id, "f2");
            assert_eq!(purpose, None);
        }
        other => panic!("unexpected content: {:?}", other),
    }
}

#[test]
fn kinds_are_tried_in_order() {
    let all = "{\"file_id\": \"f\", \"image_url\": {\"url\": \"u\"}, \"text\": \"t\"}";
    assert!(matches!(InputContent::from_json(all), Some(InputContent::Text { .. })));
    let two = "{\"file_id\": \"f\", \"image_url\": {\"url\": \"u\"}}";
    assert!(matches!(InputContent::from_json(two), Some(InputContent::Image { .. })));
    let text_is_no_string = "{\"text\": 5, \"file_id\": \"f\"}";
    assert!(matches!(InputContent::from_json(text_is_no_string), Some(InputContent::File { .. })));
    let url_is_missing = "{\"image_url\": {}, \"file_id\": \"f\"}";
    assert!(matches!(InputContent::from_json(url_is_missing), Some(InputContent::File { .. })));
}

#[test]
fn content_of_no_kind_is_not_read() {
    assert!(InputContent::from_json("{}").is_none());
    assert!(InputContent::from_json("{\"audio\": \"a\"}").is_none());
    assert!(InputContent::from_json("{\"text\": null}").is_none());
    assert!(InputContent::from_json("\"text\"").is_none());
    assert!(InputContent::from_json("[{\"text\": \"t\"}]").is_none());
    assert!(InputContent::from_json("not json").is_none());
    assert!(InputContent::from_json("").is_none());
    assert!(InputContent::from_json("{\"image_url\": \"u\"}").is_none());
}

#[test]
fn stored_item_is_read_with_its_type_and_role() {
    let item = stored("i1", "message", Some(Role::System), "{\"text\": \"rules\"}");
    let read = InputItem::from_stored(&item).unwrap();
    assert_eq!(read.item_type, "message");
    assert_eq!(read.role, Some(Role::System));
    assert!(matches!(read.content, InputContent::Text { ref text } if text == "rules"));
}

#[test]
fn stored_item_of_no_kind_is_refused_with_type_and_id() {
    let item = stored("i7", "audio", None, "{\"audio\": \"a\"}");
    assert_eq!(
        InputItem::from_stored(&item).err(),
        Some(TranslationError { item_type: "audio".to_string(), item_id: "i7".to_string() })
    );
}

#[test]
fn stored_items_are_read_until_one_is_refused() {
    let good = vec![
        stored("i1", "message", Some(Role::User), "{\"text\": \"a\"}"),
        stored("i2", "file", None, "{\"file_id\": \"f\"}"),
    ];
    let read = InputItem::all_from_stored(&good).unwrap();
    assert_eq!(read.len(), 2);
    assert_eq!(read[0].item_type, "message");
    assert!(matches!(read[1].content, InputContent::File { .. }));
    assert!(InputItem::all_from_stored(&Vec::new()).unwrap().is_empty());
    let bad = vec![
        stored("i1", "message", Some(Role::User), "{\"text\": \"a\"}"),
        stored("i2", "strange", None, "{}"),
        stored("i3", "stranger", None, "[]"),
        stored("i4", "message", None, "{\"text\": \"b\"}"),
    ];
    assert_eq!(
        InputItem::all_from_stored(&bad).err(),
        Some(TranslationError { item_type: "strange".to_string(), item_id: "i2".to_string() })
    );
}
