use card_copilot::budget::{ContextBuilderOptions, TokenBudget};
use card_copilot::character::{CharacterData, CharacterMeta, TavernCardV2, TavernCardV2Data};
use card_copilot::context::{build_history_messages, create_default_context_builder,
    count_message_tokens};
use card_copilot::messages::{ChatMessage, OpenAIMessage};
use card_copilot::tokens::TokenCounter;
use card_copilot::worldbook::{CharacterBook, WorldBookEntry, build_worldbook_content};

fn card_data(name: &str, description: &str) -> TavernCardV2Data {
    TavernCardV2Data {
        name: name.to_string(),
        description: description.to_string(),
        personality: String::new(),
        scenario: String::new(),
        first_mes: String::new(),
        mes_example: String::new(),
        creator_notes: String::new(),
        system_prompt: String::new(),
        post_history_instructions: String::new(),
        alternate_greetings: Vec::new(),
        tags: vec!["brave".to_string(), "kind".to_string()],
        creator: String::new(),
        character_version: String::new(),
        extensions: Vec::new(),
        character_book: None,
    }
}

fn character(data: TavernCardV2Data) -> CharacterData {
    CharacterData {
        uuid: "u1".to_string(),
        meta: CharacterMeta {
            uuid: "u1".to_string(),
            version: "1.0".to_string(),
            created_at: String::new(),
            updated_at: String::new(),
        },
        card: TavernCardV2 {
            spec: "chara_card_v2".to_string(),
            spec_version: "2.0".to_string(),
            data,
        },
        background_path: String::new(),
    }
}

fn turn(role: &str, content: &str) -> ChatMessage {
    ChatMessage {
        role: role.to_string(),
        content: content.to_string(),
        name: None,
        tool_calls: None,
        tool_call_id: None,
        timestamp: Some(0),
    }
}

fn entry(name: &str, content: &str, priority: u32, id: u64) -> WorldBookEntry {
    WorldBookEntry {
        id: Some(id),
        name: Some(name.to_string()),
        keys: vec!["k".to_string()],
        content: content.to_string(),
        extensions: Vec::new(),
        enabled: true,
        insertion_order: id,
        case_sensitive: None,
        priority: Some(priority),
        comment: None,
        selective: None,
        secondary_keys: None,
        constant: None,
        position: None,
    }
}

#[test]
fn default_budget_split() {
    let b = TokenBudget::default();
    assert_eq!(b.total_limit, 102400);
    assert_eq!(b.system_reserved, 15360);
    assert_eq!(b.character_reserved, 35840);
    assert_eq!(b.worldbook_reserved, 20480);
    assert_eq!(b.history_reserved, 30720);
    assert_eq!(
        b.system_reserved + b.character_reserved + b.worldbook_reserved + b.history_reserved,
        b.total_limit
    );
}

#[test]
fn full_context_shape_and_accounting() {
    let builder = create_default_context_builder().expect("tokenizer loads");
    let who = character(card_data("Lyra", "a wandering bard"));
    let history = vec![turn("user", "hello"), turn("assistant", "well met")];
    let res = builder
        .build_full_context(&who, &history, Some("sing me a song"))
        .expect("context builds");
    assert_eq!(res.system_messages.len(), 1);
    assert_eq!(res.system_messages[0].role, "system");
    assert!(res.system_messages[0].content.starts_with("role: 角色卡编写助手\n"));
    assert!(res.system_messages[0].content.contains("task: "));
    assert!(res.system_messages[0].content.contains("edit_character"));
    // no world book: a single character turn
    assert_eq!(res.assistant_messages.len(), 1);
    assert_eq!(res.assistant_messages[0].role, "assistant");
    assert!(res.assistant_messages[0].content.starts_with("character:\n"));
    assert!(res.assistant_messages[0].content.contains("  name: \"Lyra\"\n"));
    assert!(res.assistant_messages[0].content.contains("  description: \"a wandering bard\"\n"));
    assert!(res.assistant_messages[0].content.contains("  tags: [\"brave\", \"kind\"]\n"));
    // empty card fields are omitted entirely
    assert!(!res.assistant_messages[0].content.contains("personality"));
    assert_eq!(res.token_allocation.worldbook, 0);
    // short history fits whole
    assert_eq!(res.history_messages.len(), 2);
    assert_eq!(res.history_messages[0].content, "hello");
    let pending = res.current_user_message.as_ref().expect("pending turn kept");
    assert_eq!(pending.role, "user");
    assert_eq!(pending.content, "sing me a song");
    // the total is the sum of the segment counts plus the pending turn
    assert!(res.token_allocation.history <= 30720);
    assert!(!res.was_truncated);
    assert!(res.total_tokens >= res.token_allocation.system + res.token_allocation.character);
}

#[test]
fn history_keeps_the_most_recent_suffix() {
    let counter = TokenCounter::new().expect("tokenizer loads");
    let mut history = Vec::new();
    for i in 0..20 {
        history.push(turn("user", &format!("message number {}", i)));
    }
    let one_cost = count_message_tokens(&counter, &OpenAIMessage {
        role: "user".to_string(),
        content: "message number 0".to_string(),
        name: None,
        tool_calls: None,
        tool_call_id: None,
    });
    // room for roughly five turns
    let limit = one_cost * 5 + one_cost / 2;
    let (kept, used) = build_history_messages(&counter, &history, limit);
    assert!(used <= limit);
    assert!(kept.len() < history.len());
    assert!(!kept.is_empty());
    // the kept turns are exactly the most recent ones, in order
    let dropped = history.len() - kept.len();
    for (i, m) in kept.iter().enumerate() {
        assert_eq!(m.content, history[dropped + i].content);
    }
    // the suffix is maximal: one more turn would not fit
    let next = count_message_tokens(&counter, &OpenAIMessage {
        role: history[dropped - 1].role.clone(),
        content: history[dropped - 1].content.clone(),
        name: None,
        tool_calls: None,
        tool_call_id: None,
    });
    assert!(used + next > limit);
}

#[test]
fn empty_history_yields_empty_segment() {
    let counter = TokenCounter::new().expect("tokenizer loads");
    let (kept, used) = build_history_messages(&counter, &Vec::new(), 1000);
    assert!(kept.is_empty());
    assert_eq!(used, 0);
}

#[test]
fn worldbook_serializes_entries_whole() {
    let counter = TokenCounter::new().expect("tokenizer loads");
    let book = CharacterBook {
        name: None,
        description: None,
        scan_depth: Some(2),
        token_budget: Some(500),
        recursive_scanning: Some(false),
        extensions: Vec::new(),
        entries: vec![entry("A", "alpha", 2, 1)],
    };
    let (content, used) = build_worldbook_content(&counter, &book, 100000);
    let expected = "  scan_depth: 2\n  token_budget: 500\n  recursive_scanning: false\n  total_entries: 1\n  entries:\n    - {\n      id: 1,\n      name: \"A\",\n      keys: [\"k\"],\n      content: \"alpha\",\n      enabled: true,\n      priority: 2,\n    }\n";
    assert_eq!(content, expected);
    assert!(used > 0);
}

#[test]
fn worldbook_budget_excludes_whole_entries() {
    let counter = TokenCounter::new().expect("tokenizer loads");
    let big = "lore ".repeat(200);
    let book = CharacterBook {
        name: None,
        description: None,
        scan_depth: None,
        token_budget: None,
        recursive_scanning: None,
        extensions: Vec::new(),
        entries: vec![
            entry("best", &big, 9, 1),
            entry("good", "short lore", 5, 2),
            entry("least", "other lore", 1, 3),
        ],
    };
    // a budget too small for the best-scored entry stops the selection
    // before it, so nothing of it appears, not a truncated piece either
    let (content, used) = build_worldbook_content(&counter, &book, 20);
    assert!(!content.contains("lore lore"));
    assert!(!content.contains("short lore"));
    assert_eq!(used, 0);
    assert!(content.contains("  total_entries: 3\n"));
    // with room for everything, all three appear, best first
    let (full, full_used) = build_worldbook_content(&counter, &book, 100000);
    assert!(full.contains("best"));
    assert!(full.contains("short lore"));
    assert!(full.contains("other lore"));
    assert!(full_used > 0);
    let best_at = full.find("\"best\"").unwrap();
    let good_at = full.find("\"good\"").unwrap();
    let least_at = full.find("\"least\"").unwrap();
    assert!(best_at < good_at && good_at < least_at);
}

#[test]
fn placeholders_reach_the_system_turn() {
    let counter = TokenCounter::new().expect("tokenizer loads");
    let mut options = ContextBuilderOptions::default();
    options.ai_role = "{{ROLE}} for {{CHARACTER_NAME}}".to_string();
    options.placeholders = vec![("{{ROLE}}".to_string(), "helper".to_string())];
    let builder = card_copilot::context::ContextBuilder::new(counter, options);
    let who = character(card_data("Lyra", ""));
    let res = builder.build_full_context(&who, &Vec::new(), None).unwrap();
    assert!(res.system_messages[0].content.starts_with("role: helper for Lyra\n"));
    assert!(res.current_user_message.is_none());
    assert!(res.history_messages.is_empty());
}

#[test]
fn token_counts_are_real() {
    let counter = TokenCounter::new().expect("tokenizer loads");
    assert_eq!(counter.count(""), 0);
    let res = counter.count_tokens("hello world");
    assert!(res.token_count >= 1 && res.token_count <= 4);
    assert_eq!(res.char_count, 11);
    assert!(counter.is_within_limit("hello world", 10));
    assert!(!counter.is_within_limit("hello world", 0));
    // counting sees the text: a longer text costs strictly more
    assert!(counter.count("hello world hello world hello world") > res.token_count);
}

#[test]
fn truncation_yields_a_strict_prefix() {
    let counter = TokenCounter::new().expect("tokenizer loads");
    let text = "The quick brown fox jumps over the lazy dog, again and again and again.";
    let full = counter.truncate_to_limit(text, 1000);
    assert_eq!(full, text);
    let cut = counter.truncate_to_limit(text, 3);
    assert!(cut.len() < text.len());
    assert!(text.starts_with(&cut));
    assert!(!cut.is_empty());
}

#[test]
fn batch_counting_covers_each_text() {
    let counter = TokenCounter::new().expect("tokenizer loads");
    let texts = vec!["".to_string(), "hello world".to_string(), "三个字".to_string()];
    let results = counter.count_tokens_batch(&texts);
    assert_eq!(results.len(), 3);
    assert_eq!(results[0].token_count, 0);
    assert_eq!(results[0].char_count, 0);
    assert_eq!(results[1].text, "hello world");
    assert_eq!(results[1].token_count, counter.count("hello world"));
    assert_eq!(results[2].char_count, 3);
}

#[test]
fn builders_always_construct_with_their_options() {
    // construction cannot fail: the tokenizer loads from fixed data
    let default_builder = create_default_context_builder().unwrap();
    assert_eq!(default_builder.token_budget.total_limit, 102400);
    assert_eq!(default_builder.options.token_limit, 102400);
    assert_eq!(default_builder.options.ai_role, "{{ROLE}}");
    assert_eq!(default_builder.options.ai_task, "{{TASK}}");
    assert!(default_builder.options.enable_smart_truncation);
    assert_eq!(default_builder.options.placeholders.len(), 2);
    assert_eq!(default_builder.options.placeholders[0].0, "{{ROLE}}");
    assert_eq!(default_builder.options.placeholders[1].0, "{{TASK}}");
    let mut options = ContextBuilderOptions::default();
    options.ai_role = "custom".to_string();
    let custom = card_copilot::context::create_context_builder(options).unwrap();
    assert_eq!(custom.options.ai_role, "custom");
}
