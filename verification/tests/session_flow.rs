use card_copilot::character::{CharacterData, CharacterMeta, TavernCardV2, TavernCardV2Data};
use card_copilot::manager::SessionManager;
use card_copilot::session::{CharacterSession, SessionStatus};
use card_copilot::api_config::{ApiConfig, ApiConfigService, UpdateApiRequest};

fn card_data(name: &str) -> TavernCardV2Data {
    TavernCardV2Data {
        name: name.to_string(),
        description: String::new(),
        personality: String::new(),
        scenario: String::new(),
        first_mes: String::new(),
        mes_example: String::new(),
        creator_notes: String::new(),
        system_prompt: String::new(),
        post_history_instructions: String::new(),
        alternate_greetings: Vec::new(),
        tags: Vec::new(),
        creator: String::new(),
        character_version: "1.0".to_string(),
        extensions: Vec::new(),
        character_book: None,
    }
}

fn character(uuid: &str, name: &str) -> CharacterData {
    CharacterData {
        uuid: uuid.to_string(),
        meta: CharacterMeta {
            uuid: uuid.to_string(),
            version: "1.0".to_string(),
            created_at: String::new(),
            updated_at: String::new(),
        },
        card: TavernCardV2 {
            spec: "chara_card_v2".to_string(),
            spec_version: "2.0".to_string(),
            data: card_data(name),
        },
        background_path: String::new(),
    }
}

fn session(uuid: &str, now: i64) -> CharacterSession {
    CharacterSession::new(uuid.to_string(), character(uuid, "Hero"), now)
}

#[test]
fn simple_turn_scenario() {
    // empty history; a user turn and a plain assistant reply; the cursor
    // advances to two after an incremental persist
    let mut s = session("c1", 100);
    assert_eq!(s.chat_history.len(), 0);
    let user = s.add_user_message("hello".to_string(), 101);
    assert_eq!(user.role, "user");
    assert_eq!(user.content, "hello");
    let reply = s.add_assistant_message("hi".to_string(), None, 102);
    assert_eq!(reply.role, "assistant");
    assert_eq!(s.chat_history.len(), 2);
    assert_eq!(s.chat_history[0].content, "hello");
    assert_eq!(s.chat_history[1].content, "hi");
    assert_eq!(s.last_saved_index, 0);
    let batch = s.persist_incremental();
    assert_eq!(batch.len(), 2);
    assert_eq!(s.last_saved_index, 2);
    // nothing new: the next incremental batch is empty and the cursor stays
    let again = s.persist_incremental();
    assert!(again.is_empty());
    assert_eq!(s.last_saved_index, 2);
}

#[test]
fn cursor_stays_within_log() {
    let mut s = session("c2", 10);
    s.add_user_message("a".to_string(), 11);
    s.add_user_message("b".to_string(), 12);
    let _ = s.persist_incremental();
    assert_eq!(s.last_saved_index, 2);
    // a delete clips the cursor back inside the shorter log
    s.delete_last_message(13).unwrap();
    assert!(s.last_saved_index <= s.chat_history.len());
    assert_eq!(s.last_saved_index, 1);
    // a full rewrite realigns the cursor with the log
    let batch = s.persist_full_rewrite();
    assert_eq!(batch.len(), 1);
    assert_eq!(s.last_saved_index, 1);
}

#[test]
fn clear_resets_cursor() {
    let mut s = session("c3", 10);
    s.add_user_message("a".to_string(), 11);
    let _ = s.persist_incremental();
    s.clear_history(12);
    assert_eq!(s.chat_history.len(), 0);
    assert_eq!(s.last_saved_index, 0);
}

#[test]
fn edit_and_delete_bounds() {
    let mut s = session("c4", 10);
    assert!(s.edit_message(0, "x".to_string(), 11).is_err());
    assert!(s.delete_message(0, 11).is_err());
    assert!(s.delete_last_message(11).is_err());
    s.add_user_message("one".to_string(), 12);
    let edited = s.edit_message(0, "uno".to_string(), 13).unwrap();
    assert_eq!(edited.content, "uno");
    assert_eq!(s.chat_history[0].content, "uno");
    let removed = s.delete_message(0, 14).unwrap();
    assert_eq!(removed.content, "uno");
    assert!(s.chat_history.is_empty());
}

#[test]
fn tool_turn_carries_its_call_id() {
    let mut s = session("c5", 10);
    let t = s.add_tool_message("{\"success\":true}".to_string(), "call-1".to_string(),
        None, 11);
    assert_eq!(t.role, "tool");
    assert_eq!(t.tool_call_id.as_deref(), Some("call-1"));
}

#[test]
fn loaded_session_starts_persisted() {
    let mut replayed = Vec::new();
    let mut scratch = session("c6", 1);
    replayed.push(scratch.add_user_message("old".to_string(), 2));
    let s = CharacterSession::from_loaded("c6".to_string(), character("c6", "Hero"),
        replayed, 3);
    assert_eq!(s.last_saved_index, 1);
    assert!(matches!(s.status, SessionStatus::Active));
}

#[test]
fn pool_is_bounded_and_evicts_least_recent() {
    let mut m = SessionManager::new(2);
    assert!(m.update_session(session("a", 100)).is_none());
    assert!(m.update_session(session("b", 50)).is_none());
    assert_eq!(m.len(), 2);
    // inserting past capacity evicts exactly one: the least recently active
    let evicted = m.update_session(session("c", 200)).expect("one session must leave");
    assert_eq!(evicted.uuid, "b");
    assert_eq!(m.len(), 2);
    assert!(m.get_session("a").is_some());
    assert!(m.get_session("b").is_none());
    assert!(m.get_session("c").is_some());
}

#[test]
fn update_replaces_same_conversation() {
    let mut m = SessionManager::new(2);
    m.update_session(session("a", 100));
    let mut changed = session("a", 300);
    changed.add_user_message("hi".to_string(), 301);
    assert!(m.update_session(changed).is_none());
    assert_eq!(m.len(), 1);
    assert_eq!(m.get_session("a").unwrap().chat_history.len(), 1);
}

#[test]
fn remove_returns_the_session() {
    let mut m = SessionManager::new(3);
    m.update_session(session("a", 100));
    let got = m.remove_session("a").expect("present");
    assert_eq!(got.uuid, "a");
    assert!(m.remove_session("a").is_none());
    assert_eq!(m.len(), 0);
}

#[test]
fn expired_sessions_are_dropped() {
    let mut m = SessionManager::new(5);
    m.update_session(session("fresh", 1000));
    m.update_session(session("stale", 10));
    let removed = m.cleanup_expired(1010, 100);
    assert_eq!(removed, 1);
    assert!(m.get_session("fresh").is_some());
    assert!(m.get_session("stale").is_none());
}

#[test]
fn summaries_cover_the_pool() {
    let mut m = SessionManager::new(3);
    m.update_session(session("a", 1));
    m.update_session(session("b", 2));
    let infos = m.get_all_sessions_info();
    assert_eq!(infos.len(), 2);
    let mut uuids: Vec<String> = infos.iter().map(|i| i.uuid.clone()).collect();
    uuids.sort();
    assert_eq!(uuids, vec!["a".to_string(), "b".to_string()]);
    assert_eq!(infos[0].character_name.as_deref(), Some("Hero"));
}

#[test]
fn regenerate_removes_only_the_reply() {
    let mut s = session("c7", 10);
    assert!(s.prepare_regenerate(11).is_err());
    s.add_user_message("question".to_string(), 12);
    assert!(s.can_continue());
    assert!(s.prepare_regenerate(13).is_err());
    s.add_assistant_message("answer".to_string(), None, 14);
    assert!(!s.can_continue());
    let removed = s.prepare_regenerate(15).expect("reply removed");
    assert_eq!(removed.content, "answer");
    assert_eq!(s.chat_history.len(), 1);
    assert_eq!(s.chat_history[0].content, "question");
    assert!(s.can_continue());
}

#[test]
fn update_request_renames_and_redefaults() {
    let mut configs: Vec<ApiConfig> = vec![
        ApiConfig {
            profile: "one".to_string(),
            endpoint: "https://a.test".to_string(),
            key: String::new(),
            model: "m1".to_string(),
            default: true,
            enabled: true,
        },
        ApiConfig {
            profile: "two".to_string(),
            endpoint: "https://b.test".to_string(),
            key: String::new(),
            model: "m2".to_string(),
            default: false,
            enabled: false,
        },
    ];
    ApiConfigService::update_api_config(&mut configs, UpdateApiRequest {
        profile: "renamed".to_string(),
        original_profile: "two".to_string(),
        endpoint: None,
        key: None,
        model: Some("m3".to_string()),
        default: Some(true),
        enabled: Some(true),
    }).expect("profile exists");
    assert_eq!(configs[1].profile, "renamed");
    assert_eq!(configs[1].model, "m3");
    assert_eq!(configs[1].endpoint, "https://b.test");
    assert!(configs[1].default && configs[1].enabled);
    assert!(!configs[0].default);
    assert!(ApiConfigService::update_api_config(&mut configs, UpdateApiRequest {
        profile: "x".to_string(),
        original_profile: "gone".to_string(),
        endpoint: None,
        key: None,
        model: None,
        default: None,
        enabled: None,
    }).is_err());
}
