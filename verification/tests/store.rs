use responses_core::chain::ChainWalk;
use responses_core::database::{
    DatabaseManager, InputItem, OutputItem, ResponseSession, StoreError,
};
use responses_core::types::{Metadata, Role};

fn session(id: &str, previous: Option<&str>) -> ResponseSession {
    ResponseSession {
        id: id.to_string(),
        object: "response".to_string(),
        created_at: 1_700_000_000,
        status: "in_progress".to_string(),
        model: "m".to_string(),
        previous_response_id: previous.map(|p| p.to_string()),
        instructions: None,
        max_output_tokens: Some(100),
        temperature: None,
        top_p: None,
        store: true,
        metadata: None,
        user_id: Some("u1".to_string()),
        safety_identifier: None,
        prompt_cache_key: None,
        usage_input_tokens: None,
        usage_output_tokens: None,
        usage_total_tokens: None,
        error: None,
        incomplete_details: None,
    }
}

fn input(id: &str, owner: &str, at: i64) -> InputItem {
    InputItem {
        id: id.to_string(),
        response_id: owner.to_string(),
        item_type: "message".to_string(),
        role: Some(Role::User),
        content: "{\"text\":\"hi\"}".to_string(),
        created_at: at,
    }
}

fn output(id: &str, owner: &str, at: i64) -> OutputItem {
    OutputItem {
        id: id.to_string(),
        response_id: owner.to_string(),
        item_type: "message".to_string(),
        role: Some(Role::Assistant),
        content: "{\"text\":\"hello\"}".to_string(),
        status: "completed".to_string(),
        created_at: at,
    }
}

fn ids(history: &[ResponseSession]) -> Vec<String> {
    history.iter().map(|r| r.id.clone()).collect()
}

fn chain_of_three() -> DatabaseManager {
    let mut store = DatabaseManager::new();
    assert_eq!(store.store_response(session("A", None)), Ok(()));
    assert_eq!(store.store_response(session("B", Some("A"))), Ok(()));
    assert_eq!(store.store_response(session("C", Some("B"))), Ok(()));
    store
}

#[test]
fn empty_store_finds_nothing() {
    let store = DatabaseManager::new();
    assert_eq!(store.response_count(), 0);
    assert!(store.get_response("A").is_none());
    assert!(store.get_input_items("A").is_empty());
    assert!(store.get_output_items("A").is_empty());
    assert!(store.get_conversation_history("A").is_empty());
}

#[test]
fn stored_response_is_found_as_it_was() {
    let mut store = DatabaseManager::new();
    let mut first = session("A", None);
    first.instructions = Some("be brief".to_string());
    first.metadata =
        Some(Metadata::from_map(vec![("k".to_string(), "v".to_string())]).unwrap());
    assert_eq!(store.store_response(first), Ok(()));
    let found = store.get_response("A").unwrap();
    assert_eq!(found.id, "A");
    assert_eq!(found.status, "in_progress");
    assert_eq!(found.instructions, Some("be brief".to_string()));
    assert_eq!(found.max_output_tokens, Some(100));
    assert_eq!(found.user_id, Some("u1".to_string()));
    assert_eq!(found.metadata.unwrap().get("k"), Some(&"v".to_string()));
    assert!(store.get_response("B").is_none());
    assert_eq!(store.response_count(), 1);
}

#[test]
fn duplicate_identifier_is_a_conflict() {
    let mut store = DatabaseManager::new();
    assert_eq!(store.store_response(session("A", None)), Ok(()));
    let mut again = session("A", None);
    again.model = "other".to_string();
    assert_eq!(store.store_response(again), Err(StoreError::Conflict));
    assert_eq!(store.get_response("A").unwrap().model, "m");
    assert_eq!(store.response_count(), 1);
}

#[test]
fn unknown_parent_is_an_invalid_reference() {
    let mut store = DatabaseManager::new();
    assert_eq!(
        store.store_response(session("B", Some("A"))),
        Err(StoreError::InvalidReference)
    );
    assert!(store.get_response("B").is_none());
    assert_eq!(
        store.store_response(session("S", Some("S"))),
        Err(StoreError::InvalidReference)
    );
    assert_eq!(store.response_count(), 0);
}

#[test]
fn conflict_comes_before_invalid_reference() {
    let mut store = DatabaseManager::new();
    assert_eq!(store.store_response(session("A", None)), Ok(()));
    assert_eq!(store.store_response(session("A", Some("nowhere"))), Err(StoreError::Conflict));
}

#[test]
fn chain_is_told_oldest_first() {
    let store = chain_of_three();
    assert_eq!(ids(&store.get_conversation_history("C")), vec!["A", "B", "C"]);
    assert_eq!(ids(&store.get_conversation_history("B")), vec!["A", "B"]);
    assert_eq!(ids(&store.get_conversation_history("A")), vec!["A"]);
}

#[test]
fn chain_of_unknown_response_is_empty() {
    let store = chain_of_three();
    assert!(store.get_conversation_history("Z").is_empty());
    assert!(store.get_conversation_history("").is_empty());
}

#[test]
fn chain_follows_its_own_branch() {
    let mut store = chain_of_three();
    assert_eq!(store.store_response(session("D", Some("A"))), Ok(()));
    assert_eq!(ids(&store.get_conversation_history("D")), vec!["A", "D"]);
    assert_eq!(ids(&store.get_conversation_history("C")), vec!["A", "B", "C"]);
}

#[test]
fn chain_stops_at_a_link_that_leads_nowhere() {
    let mut store = chain_of_three();
    assert!(store.delete_response("B"));
    assert_eq!(ids(&store.get_conversation_history("C")), vec!["C"]);
    assert_eq!(ids(&store.get_conversation_history("A")), vec!["A"]);
    assert!(store.get_conversation_history("B").is_empty());
}

#[test]
fn chain_ends_even_where_links_run_in_a_circle() {
    let mut store = DatabaseManager::new();
    assert_eq!(store.store_response(session("X", None)), Ok(()));
    assert_eq!(store.store_response(session("D", Some("X"))), Ok(()));
    assert!(store.delete_response("X"));
    assert_eq!(store.store_response(session("X", Some("D"))), Ok(()));
    let history = store.get_conversation_history("D");
    assert_eq!(ids(&history), vec!["X", "D"]);
    assert_eq!(ids(&store.get_conversation_history("X")), vec!["D", "X"]);
}

#[test]
fn delete_says_whether_there_was_a_response() {
    let mut store = chain_of_three();
    assert!(!store.delete_response("Z"));
    assert_eq!(store.response_count(), 3);
    assert!(store.delete_response("C"));
    assert!(!store.delete_response("C"));
    assert_eq!(store.response_count(), 2);
}

#[test]
fn delete_takes_the_items_along() {
    let mut store = chain_of_three();
    assert_eq!(store.store_input_item(input("i1", "B", 10)), Ok(()));
    assert_eq!(store.store_input_item(input("i2", "B", 11)), Ok(()));
    assert_eq!(store.store_input_item(input("i3", "C", 12)), Ok(()));
    assert_eq!(store.store_output_item(output("o1", "B", 13)), Ok(()));
    assert_eq!(store.store_output_item(output("o2", "A", 14)), Ok(()));
    assert!(store.delete_response("B"));
    assert!(store.get_response("B").is_none());
    assert!(store.get_input_items("B").is_empty());
    assert!(store.get_output_items("B").is_empty());
    assert_eq!(store.get_input_items("C").len(), 1);
    assert_eq!(store.get_input_items("C")[0].id, "i3");
    assert_eq!(store.get_output_items("A").len(), 1);
    assert_eq!(store.get_output_items("A")[0].id, "o2");
    assert!(store.get_response("A").is_some());
    assert!(store.get_response("C").is_some());
    assert_eq!(store.get_response("C").unwrap().previous_response_id, Some("B".to_string()));
}

#[test]
fn deleted_items_free_their_identifiers() {
    let mut store = chain_of_three();
    assert_eq!(store.store_input_item(input("i1", "B", 10)), Ok(()));
    assert!(store.delete_response("B"));
    assert_eq!(store.store_input_item(input("i1", "C", 10)), Ok(()));
    assert_eq!(store.get_input_items("C").len(), 1);
}

#[test]
fn items_need_a_stored_response_and_a_fresh_identifier() {
    let mut store = chain_of_three();
    assert_eq!(
        store.store_input_item(input("i1", "Z", 10)),
        Err(StoreError::InvalidReference)
    );
    assert_eq!(store.store_input_item(input("i1", "A", 10)), Ok(()));
    assert_eq!(store.store_input_item(input("i1", "B", 11)), Err(StoreError::Conflict));
    assert_eq!(store.store_input_item(input("i1", "Z", 11)), Err(StoreError::Conflict));
    assert_eq!(
        store.store_output_item(output("i1", "Z", 10)),
        Err(StoreError::InvalidReference)
    );
    assert_eq!(store.store_output_item(output("i1", "A", 10)), Ok(()));
    assert_eq!(store.store_output_item(output("i1", "A", 12)), Err(StoreError::Conflict));
    assert_eq!(store.get_input_items("A").len(), 1);
    assert!(store.get_input_items("B").is_empty());
    assert_eq!(store.get_output_items("A").len(), 1);
}

#[test]
fn items_are_listed_by_creation_time() {
    let mut store = chain_of_three();
    assert_eq!(store.store_input_item(input("late", "A", 30)), Ok(()));
    assert_eq!(store.store_input_item(input("early", "A", 10)), Ok(()));
    assert_eq!(store.store_input_item(input("other", "B", 15)), Ok(()));
    assert_eq!(store.store_input_item(input("middle", "A", 20)), Ok(()));
    assert_eq!(store.store_input_item(input("tie", "A", 20)), Ok(()));
    assert_eq!(store.store_input_item(input("first", "A", -5)), Ok(()));
    let listed: Vec<String> =
        store.get_input_items("A").iter().map(|i| i.id.clone()).collect();
    assert_eq!(listed, vec!["first", "early", "middle", "tie", "late"]);
    let listed: Vec<String> =
        store.get_input_items("B").iter().map(|i| i.id.clone()).collect();
    assert_eq!(listed, vec!["other"]);
    assert_eq!(store.store_output_item(output("o2", "A", 2)), Ok(()));
    assert_eq!(store.store_output_item(output("o1", "A", 1)), Ok(()));
    let listed: Vec<String> =
        store.get_output_items("A").iter().map(|i| i.id.clone()).collect();
    assert_eq!(listed, vec!["o1", "o2"]);
    let item = &store.get_output_items("A")[0];
    assert_eq!(item.role, Some(Role::Assistant));
    assert_eq!(item.status, "completed");
    assert_eq!(item.content, "{\"text\":\"hello\"}");
}

#[test]
fn status_update_touches_only_the_status() {
    let mut store = chain_of_three();
    store.update_response_status("B", "completed");
    let found = store.get_response("B").unwrap();
    assert_eq!(found.status, "completed");
    assert_eq!(found.previous_response_id, Some("A".to_string()));
    assert_eq!(found.model, "m");
    assert_eq!(found.created_at, 1_700_000_000);
    assert_eq!(store.get_response("A").unwrap().status, "in_progress");
    assert_eq!(store.get_response("C").unwrap().status, "in_progress");
    store.update_response_status("Z", "failed");
    assert!(store.get_response("Z").is_none());
    assert_eq!(store.response_count(), 3);
    assert_eq!(ids(&store.get_conversation_history("C")), vec!["A", "B", "C"]);
}

#[test]
fn walk_asks_for_one_response_after_another() {
    let mut walk = ChainWalk::start("C");
    assert_eq!(walk.next_id(), Some(&"C".to_string()));
    assert_eq!(walk.len(), 0);
    walk.record(Some(session("C", Some("B"))));
    assert_eq!(walk.next_id(), Some(&"B".to_string()));
    walk.record(Some(session("B", Some("A"))));
    assert_eq!(walk.next_id(), Some(&"A".to_string()));
    walk.record(Some(session("A", None)));
    assert_eq!(walk.next_id(), None);
    assert_eq!(walk.len(), 3);
    assert_eq!(ids(&walk.finish()), vec!["A", "B", "C"]);
}

#[test]
fn walk_ends_where_nothing_is_found() {
    let mut walk = ChainWalk::start("C");
    walk.record(Some(session("C", Some("B"))));
    walk.record(None);
    assert_eq!(walk.next_id(), None);
    assert_eq!(ids(&walk.finish()), vec!["C"]);
    let mut walk = ChainWalk::start("Z");
    walk.record(None);
    assert_eq!(walk.next_id(), None);
    assert!(walk.finish().is_empty());
}
