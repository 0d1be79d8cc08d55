use peerlink::llm::{build_prompt, ChatRequest, Message};
use peerlink::utils::{create_new_session, ChatMessage, ChatSession, ConversationStore};
use peerlink::web::{asset_content_type, normalize_asset_path};

fn msg(role: &str, content: &str) -> Message {
    Message {
        role: role.to_string(),
        content: content.to_string(),
    }
}

fn session(id: &str) -> ChatSession {
    ChatSession {
        id: id.to_string(),
        messages: Vec::new(),
        created_at: 100,
        updated_at: 100,
    }
}

#[test]
fn prompt_flattens_the_conversation() {
    let req = ChatRequest {
        message: "and now?".to_string(),
        conversation: vec![msg("user", "hello"), msg("assistant", "hi there")],
        session_id: None,
    };
    assert_eq!(
        build_prompt(&req),
        "user: hello\nassistant: hi there\nuser: and now?\n"
    );
}

#[test]
fn prompt_of_an_empty_conversation_is_the_message_alone() {
    let req = ChatRequest {
        message: "first".to_string(),
        conversation: Vec::new(),
        session_id: None,
    };
    assert_eq!(build_prompt(&req), "user: first\n");
}

#[test]
fn store_adds_then_updates_by_identifier() {
    let mut store = ConversationStore::new();
    store.add_or_update_session(session("alpha"));
    store.add_or_update_session(session("beta"));
    assert_eq!(store.session_ids(), vec!["alpha", "beta"]);

    let mut changed = session("alpha");
    changed.updated_at = 999;
    store.add_or_update_session(changed);
    assert_eq!(store.session_ids(), vec!["alpha", "beta"]);
    assert_eq!(store.get_session("alpha").unwrap().updated_at, 999);
    assert_eq!(store.get_session("beta").unwrap().updated_at, 100);
    assert!(store.get_session("gamma").is_none());
}

#[test]
fn record_exchange_appends_user_then_assistant() {
    let mut s = session("alpha");
    s.messages.push(ChatMessage {
        role: "user".to_string(),
        content: "old".to_string(),
        timestamp: 100,
    });
    s.record_exchange("ask".to_string(), "answer".to_string(), 2000);
    assert_eq!(s.messages.len(), 3);
    assert_eq!(s.messages[0].content, "old");
    assert_eq!(s.messages[1].role, "user");
    assert_eq!(s.messages[1].content, "ask");
    assert_eq!(s.messages[1].timestamp, 2000);
    assert_eq!(s.messages[2].role, "assistant");
    assert_eq!(s.messages[2].content, "answer");
    assert_eq!(s.messages[2].timestamp, 2000);
    assert_eq!(s.updated_at, 2000);
    assert_eq!(s.created_at, 100);
    assert_eq!(s.id, "alpha");
}

#[test]
fn new_sessions_are_empty_with_a_fresh_identifier() {
    let a = create_new_session();
    let b = create_new_session();
    assert_eq!(a.messages.len(), 0);
    assert_eq!(a.created_at, a.updated_at);
    assert_eq!(a.id.len(), 36);
    assert_ne!(a.id, b.id);
}

#[test]
fn asset_paths_are_normalized() {
    assert_eq!(normalize_asset_path("assets/logo.png"), "assets/logo.png");
    assert_eq!(normalize_asset_path("/app/index.html"), "index.html");
    assert_eq!(normalize_asset_path("/app//app/x"), "x");
    assert_eq!(normalize_asset_path("index.html"), "index.html");
    assert_eq!(normalize_asset_path(""), "");
}

#[test]
fn content_types_follow_the_normalized_path() {
    assert_eq!(asset_content_type("/app/index.html"), "text/html");
    assert_eq!(asset_content_type("assets/logo.png"), "image/png");
    // an unknown extension falls back to octet-stream
    assert_eq!(
        asset_content_type("strange.unknownext"),
        "application/octet-stream"
    );
}
