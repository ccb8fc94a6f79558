use card_copilot::chat::{
    ChatMessage, ToolLoop, invalid_args_content, parse_tool_arguments, reply_has_tool_calls,
    tool_result_content, tool_turn_message, DEFAULT_MAX_TOOL_ROUNDS,
};
use card_copilot::character::TavernCardV2Data;
use card_copilot::messages::{MessageRole, ToolCallData, ToolCallFunctionData};
use card_copilot::tools::{
    AITool, BuiltinTool, CreateWorldBookEntryTool, EditCharacterTool, ToolRegistry, ToolResult,
    apply_edits, create_entry, default_book, ensure_book, resolve_tool, unknown_tool_result,
};

fn blank_card() -> TavernCardV2Data {
    TavernCardV2Data {
        name: String::new(),
        description: String::new(),
        personality: String::new(),
        scenario: String::new(),
        first_mes: String::new(),
        mes_example: String::new(),
        creator_notes: String::new(),
        system_prompt: String::new(),
        post_history_instructions: String::new(),
        alternate_greetings: Vec::new(),
        tags: Vec::new(),
        creator: String::new(),
        character_version: String::new(),
        extensions: Vec::new(),
        character_book: None,
    }
}

fn params(pairs: &[(&str, &str)]) -> Vec<(String, String)> {
    pairs.iter().map(|(k, v)| (k.to_string(), v.to_string())).collect()
}

#[test]
fn registry_serves_and_degrades() {
    let mut registry = ToolRegistry::new();
    registry.register_tool(EditCharacterTool::descriptor());
    registry.register_tool(CreateWorldBookEntryTool::descriptor());
    assert_eq!(registry.len(), 2);
    assert!(registry.has_tool("edit_character"));
    assert!(!registry.has_tool("paint_portrait"));
    let cats = registry.get_tool_categories();
    assert_eq!(cats, vec!["character".to_string()]);
    // registering a same-named tool replaces it, not duplicates it
    let mut again = EditCharacterTool::descriptor();
    again.enabled = false;
    registry.register_tool(again);
    assert_eq!(registry.len(), 2);
    assert!(!registry.get_tool("edit_character").unwrap().enabled);
    // unknown names degrade to a structured failure
    let r = unknown_tool_result("paint_portrait", 7);
    assert!(!r.success);
    assert_eq!(r.error.as_deref(), Some("Unknown tool: paint_portrait"));
    assert_eq!(r.execution_time_ms, 7);
}

#[test]
fn enabled_positions_follow_the_flag() {
    let mut registry = ToolRegistry::new();
    let mut off = EditCharacterTool::descriptor();
    off.enabled = false;
    registry.register_tool(off);
    registry.register_tool(CreateWorldBookEntryTool::descriptor());
    let on = registry.enabled_positions();
    assert_eq!(on.len(), 1);
    assert_eq!(registry.tool_at(on[0]).name, "create_world_book_entry");
}

#[test]
fn edit_applies_fields_and_splits_lists() {
    let mut card = blank_card();
    let updated = apply_edits(&mut card, &params(&[
        ("description", "a brave knight"),
        ("tags", "brave, loyal,, "),
        ("alternate_greetings", "hi<START_ALT> hello there"),
        ("unknown_field", "ignored"),
    ])).expect("some fields recognized");
    assert_eq!(updated, vec![
        "description".to_string(),
        "tags".to_string(),
        "alternate_greetings".to_string(),
    ]);
    assert_eq!(card.description, "a brave knight");
    assert_eq!(card.tags, vec!["brave".to_string(), "loyal".to_string()]);
    assert_eq!(card.alternate_greetings, vec!["hi".to_string(), "hello there".to_string()]);
}

#[test]
fn edit_without_recognized_fields_fails() {
    let mut card = blank_card();
    let r = apply_edits(&mut card, &params(&[("at_least_one_field", "x"), ("bogus", "y")]));
    assert!(r.is_err());
    assert_eq!(card.description, "");
}

#[test]
fn edit_last_binding_wins() {
    let mut card = blank_card();
    apply_edits(&mut card, &params(&[("name", "first"), ("name", "second")])).unwrap();
    assert_eq!(card.name, "second");
}

#[test]
fn create_entry_builds_and_numbers_entries() {
    let mut book = default_book();
    assert_eq!(book.token_budget, Some(500));
    let id = create_entry(&mut book, &params(&[
        ("keys", "dragon, wyrm"),
        ("content", "Dragons hoard gold."),
        ("depth", "5"),
        ("comment", "lore"),
        ("probability", "100"),
    ])).expect("entry created");
    assert_eq!(id, 1);
    assert_eq!(book.entries.len(), 1);
    let e = &book.entries[0];
    assert_eq!(e.id, Some(1));
    assert_eq!(e.insertion_order, 1);
    assert_eq!(e.keys, vec!["dragon".to_string(), "wyrm".to_string()]);
    assert_eq!(e.content, "Dragons hoard gold.");
    assert!(e.enabled);
    assert_eq!(e.priority, Some(10));
    assert_eq!(e.position.as_deref(), Some("before_char"));
    // ids are assigned past the maximum, not densely
    let id2 = create_entry(&mut book, &params(&[
        ("keys", "elf"),
        ("content", "Elves sing."),
        ("depth", "2"),
        ("comment", "lore"),
        ("probability", "50"),
        ("priority", "3"),
        ("enabled", "false"),
        ("token_budget", "900"),
    ])).expect("second entry created");
    assert_eq!(id2, 2);
    assert_eq!(book.entries[1].priority, Some(3));
    assert!(!book.entries[1].enabled);
    assert_eq!(book.token_budget, Some(900));
}

#[test]
fn create_entry_requires_its_arguments() {
    let mut book = default_book();
    let r = create_entry(&mut book, &params(&[("keys", "a"), ("content", "b")]));
    assert!(r.is_err());
    assert!(book.entries.is_empty());
    // empty keys after splitting fail too
    let r2 = create_entry(&mut book, &params(&[
        ("keys", " , "),
        ("content", "b"),
        ("depth", "1"),
        ("comment", "c"),
        ("probability", "1"),
    ]));
    assert!(r2.is_err());
    assert!(book.entries.is_empty());
}

#[test]
fn descriptors_declare_their_schemas() {
    let edit = EditCharacterTool::to_chat_tool();
    assert_eq!(edit.tool_type, "function");
    assert_eq!(edit.function.name, "edit_character");
    let p = edit.function.parameters.as_ref().unwrap();
    assert_eq!(p.param_type, "object");
    assert_eq!(p.properties.len(), 14);
    assert_eq!(p.required.as_ref().unwrap(), &vec!["at_least_one_field".to_string()]);
    let create = CreateWorldBookEntryTool::to_chat_tool();
    assert_eq!(create.function.name, "create_world_book_entry");
    let cp = create.function.parameters.as_ref().unwrap();
    assert_eq!(cp.properties.len(), 13);
    assert_eq!(cp.required.as_ref().unwrap().len(), 6);
}

#[test]
fn tool_loop_aborts_at_exactly_the_cap() {
    // a model that always replies with a function call: the loop sends
    // exactly the cap's number of requests, then aborts
    let mut rounds = 0u32;
    let mut state = ToolLoop::new(DEFAULT_MAX_TOOL_ROUNDS);
    loop {
        if !state.begin_round() {
            break;
        }
        rounds += 1;
        // every reply asks for another tool round, so the loop continues
    }
    assert_eq!(rounds, DEFAULT_MAX_TOOL_ROUNDS);
    assert!(!state.begin_round());
    assert_eq!(ToolLoop::cap_exceeded_error(), "tool-call loop limit exceeded");
}

#[test]
fn one_tool_round_scenario() {
    // first reply carries one function call; the tool succeeds; the second
    // reply is plain text; the log gains the assistant turn with the
    // directives, the tool turn answering it, and the final assistant turn
    let mut session = card_copilot::session::CharacterSession::new(
        "conv".to_string(),
        card_copilot::character::CharacterData {
            uuid: "conv".to_string(),
            meta: card_copilot::character::CharacterMeta {
                uuid: "conv".to_string(),
                version: "1.0".to_string(),
                created_at: String::new(),
                updated_at: String::new(),
            },
            card: card_copilot::character::TavernCardV2 {
                spec: "chara_card_v2".to_string(),
                spec_version: "2.0".to_string(),
                data: blank_card(),
            },
            background_path: String::new(),
        },
        0,
    );
    session.add_user_message("make him brave".to_string(), 1);
    let call = ToolCallData {
        id: "call-1".to_string(),
        call_type: "function".to_string(),
        function: ToolCallFunctionData {
            name: "edit_character".to_string(),
            arguments: "{\"description\":\"a brave knight\"}".to_string(),
        },
    };
    let first_reply = ChatMessage {
        role: MessageRole::Assistant,
        content: String::new(),
        name: None,
        tool_calls: Some(vec![call.clone()]),
        tool_call_id: None,
    };
    assert!(reply_has_tool_calls(&first_reply));
    let args = parse_tool_arguments(&call.function.arguments).expect("arguments parse");
    let mut card = blank_card();
    let updated = apply_edits(&mut card, &args).expect("edit succeeds");
    assert_eq!(updated, vec!["description".to_string()]);
    assert_eq!(card.description, "a brave knight");
    let result = ToolResult {
        success: true,
        data: None,
        error: None,
        execution_time_ms: 3,
    };
    let content = tool_result_content(&result);
    assert_eq!(content, "{\"success\":true,\"data\":null,\"execution_time_ms\":3}");
    let tool_turn = tool_turn_message(content.clone(), call.id.clone());
    assert_eq!(tool_turn.role, MessageRole::Tool);
    assert_eq!(tool_turn.tool_call_id.as_deref(), Some("call-1"));
    session.add_assistant_message(first_reply.content.clone(),
        first_reply.tool_calls.clone(), 2);
    session.add_tool_message(content, call.id.clone(), None, 3);
    let second_reply = ChatMessage {
        role: MessageRole::Assistant,
        content: "done".to_string(),
        name: None,
        tool_calls: None,
        tool_call_id: None,
    };
    assert!(!reply_has_tool_calls(&second_reply));
    session.add_assistant_message(second_reply.content.clone(), None, 4);
    // the log now reads: user, assistant carrying the directives, the tool
    // turn answering call-1, and the plain final assistant turn
    let log = &session.chat_history;
    assert_eq!(log.len(), 4);
    assert_eq!(log[0].role, "user");
    assert_eq!(log[1].role, "assistant");
    assert_eq!(log[1].tool_calls.as_ref().unwrap().len(), 1);
    assert_eq!(log[1].tool_calls.as_ref().unwrap()[0].function.name, "edit_character");
    assert_eq!(log[2].role, "tool");
    assert_eq!(log[2].tool_call_id.as_deref(), Some("call-1"));
    assert!(log[2].content.starts_with("{\"success\":true"));
    assert_eq!(log[3].role, "assistant");
    assert_eq!(log[3].content, "done");
}

#[test]
fn failed_results_and_bad_arguments_are_structured() {
    let failure = ToolResult {
        success: false,
        data: None,
        error: Some("boom".to_string()),
        execution_time_ms: 2,
    };
    assert_eq!(
        tool_result_content(&failure),
        "{\"success\":false,\"error\":\"boom\",\"data\":null,\"execution_time_ms\":2}"
    );
    assert_eq!(
        invalid_args_content("expected value"),
        "{\"success\":false,\"error\":\"Invalid tool arguments: expected value\"}"
    );
    assert!(parse_tool_arguments("not json").is_err());
    // non-string values are dropped, string values kept
    let kept = parse_tool_arguments("{\"a\":\"1\",\"b\":2}").unwrap();
    assert_eq!(kept, vec![("a".to_string(), "1".to_string())]);
}

#[test]
fn registry_categories_come_in_first_appearance_order() {
    let mut registry = ToolRegistry::new();
    registry.register_tool(AITool {
        name: "t1".to_string(),
        description: String::new(),
        category: "character".to_string(),
        parameters: Vec::new(),
        enabled: true,
    });
    registry.register_tool(AITool {
        name: "t2".to_string(),
        description: String::new(),
        category: "utility".to_string(),
        parameters: Vec::new(),
        enabled: true,
    });
    registry.register_tool(AITool {
        name: "t3".to_string(),
        description: String::new(),
        category: "character".to_string(),
        parameters: Vec::new(),
        enabled: true,
    });
    assert_eq!(registry.get_tool_categories(),
        vec!["character".to_string(), "utility".to_string()]);
}

#[test]
fn dispatch_resolves_only_the_builtins() {
    assert_eq!(resolve_tool("edit_character"), Some(BuiltinTool::EditCharacter));
    assert_eq!(resolve_tool("create_world_book_entry"),
        Some(BuiltinTool::CreateWorldBookEntry));
    assert_eq!(resolve_tool("paint_portrait"), None);
    assert_eq!(resolve_tool(""), None);
    // a card without a book gets the default one; an existing book stays
    let mut card = blank_card();
    ensure_book(&mut card);
    let book = card.character_book.as_ref().unwrap();
    assert_eq!(book.token_budget, Some(500));
    assert_eq!(book.scan_depth, Some(2));
    assert!(book.entries.is_empty());
    card.character_book.as_mut().unwrap().token_budget = Some(900);
    ensure_book(&mut card);
    assert_eq!(card.character_book.as_ref().unwrap().token_budget, Some(900));
}

#[test]
fn enabled_positions_are_strictly_increasing() {
    let mut registry = ToolRegistry::new();
    registry.register_tool(EditCharacterTool::descriptor());
    let mut off = CreateWorldBookEntryTool::descriptor();
    off.enabled = false;
    registry.register_tool(off);
    let mut third = EditCharacterTool::descriptor();
    third.name = "third_tool".to_string();
    registry.register_tool(third);
    let on = registry.enabled_positions();
    assert_eq!(on, vec![0, 2]);
    for w in on.windows(2) {
        assert!(w[0] < w[1]);
    }
}
