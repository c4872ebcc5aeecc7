use mcp_client::storage::{Conversation, Message, Settings, StorageState};

fn conversation(id: &str) -> Conversation {
    Conversation {
        id: id.to_string(),
        title: "hello".to_string(),
        messages: vec![Message {
            id: "m1".to_string(),
            role: "user".to_string(),
            content: "hi".to_string(),
            timestamp: 1,
            model: None,
        }],
        created_at: 1,
        updated_at: 2,
        model: "default".to_string(),
    }
}

#[test]
fn conversations_last_write_wins() {
    let mut store = StorageState::new();
    assert!(store.load_conversations().is_empty());
    store.save_conversations(vec![conversation("c1")]);
    store.save_conversations(vec![conversation("c2"), conversation("c3")]);
    let loaded = store.load_conversations();
    assert_eq!(loaded.len(), 2);
    assert_eq!(loaded[0].id, "c2");
    assert_eq!(loaded[1].id, "c3");
}

#[test]
fn settings_last_write_wins() {
    let mut store = StorageState::new();
    assert!(store.load_settings().is_none());
    store.save_settings(Settings { api_key: None, selected_model: "a".to_string() });
    store.save_settings(Settings {
        api_key: Some("test-key".to_string()),
        selected_model: "b".to_string(),
    });
    let s = store.load_settings().as_ref().unwrap();
    assert_eq!(s.selected_model, "b");
    assert_eq!(s.api_key.as_deref(), Some("test-key"));
}

#[test]
fn clear_all_data_forgets_everything() {
    let mut store = StorageState::default();
    store.save_conversations(vec![conversation("c1")]);
    store.save_settings(Settings { api_key: None, selected_model: "a".to_string() });
    store.clear_all_data();
    assert!(store.load_conversations().is_empty());
    assert!(store.load_settings().is_none());
}
