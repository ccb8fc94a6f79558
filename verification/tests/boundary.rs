use base64::Engine;
use card_copilot::api_config::{ApiConfig, ApiConfigService, CreateApiRequest, models_url,
    normalize_base_url};
use card_copilot::commands::ClearCommand;
use card_copilot::messages::{OpenAIMessage, ToolCallData, ToolCallFunctionData,
    message_json_string};
use card_copilot::png::{PngMetadataError, PngMetadataUtils};
use card_copilot::services::{is_enabled, parse_disabled_list};
use card_copilot::chat::{AIChatService, ToolChoice, ToolChoiceKind, ToolTarget};

#[test]
fn message_json_matches_the_wire_shape() {
    let plain = OpenAIMessage {
        role: "user".to_string(),
        content: "say \"hi\"\n".to_string(),
        name: None,
        tool_calls: None,
        tool_call_id: None,
    };
    assert_eq!(
        message_json_string(&plain),
        "{\"role\":\"user\",\"content\":\"say \\\"hi\\\"\\n\",\"name\":null,\
         \"tool_calls\":null,\"tool_call_id\":null}"
    );
    let with_calls = OpenAIMessage {
        role: "assistant".to_string(),
        content: String::new(),
        name: None,
        tool_calls: Some(vec![ToolCallData {
            id: "c1".to_string(),
            call_type: "function".to_string(),
            function: ToolCallFunctionData {
                name: "edit_character".to_string(),
                arguments: "{}".to_string(),
            },
        }]),
        tool_call_id: None,
    };
    assert_eq!(
        message_json_string(&with_calls),
        "{\"role\":\"assistant\",\"content\":\"\",\"name\":null,\"tool_calls\":[\
         {\"id\":\"c1\",\"type\":\"function\",\"function\":{\"name\":\"edit_character\",\
         \"arguments\":\"{}\"}}],\"tool_call_id\":null}"
    );
}

#[test]
fn endpoint_urls_are_normalized() {
    assert_eq!(normalize_base_url("https://x.test"), "https://x.test/v1");
    assert_eq!(normalize_base_url("https://x.test/"), "https://x.test/v1");
    assert_eq!(normalize_base_url("https://x.test/v1"), "https://x.test/v1");
    assert_eq!(normalize_base_url("https://x.test/v1/"), "https://x.test/v1");
    assert_eq!(models_url("https://x.test"), "https://x.test/models");
    assert_eq!(models_url("https://x.test/"), "https://x.test/models");
}

fn request(profile: &str, default: bool) -> CreateApiRequest {
    CreateApiRequest {
        profile: profile.to_string(),
        endpoint: Some("https://x.test".to_string()),
        key: Some("test-key".to_string()),
        model: Some("gpt-test".to_string()),
        default: Some(default),
        enabled: Some(true),
    }
}

#[test]
fn config_list_keeps_one_default() {
    let mut configs: Vec<ApiConfig> = Vec::new();
    ApiConfigService::create_api_config(&mut configs, request("one", true)).unwrap();
    ApiConfigService::create_api_config(&mut configs, request("two", true)).unwrap();
    assert_eq!(configs.len(), 2);
    assert!(!configs[0].default);
    assert!(configs[1].default);
    // duplicate profiles are refused
    assert!(ApiConfigService::create_api_config(&mut configs, request("one", false)).is_err());
    assert_eq!(configs.len(), 2);
    ApiConfigService::set_default_api_config(&mut configs, "one").unwrap();
    assert!(configs[0].default);
    assert!(!configs[1].default);
    assert!(ApiConfigService::set_default_api_config(&mut configs, "three").is_err());
    let chosen = ApiConfigService::get_default_api_config(&configs).unwrap();
    assert_eq!(chosen.profile, "one");
    ApiConfigService::toggle_api_config(&mut configs, "two", false).unwrap();
    assert!(!configs[1].enabled);
    ApiConfigService::delete_api_config(&mut configs, "one").unwrap();
    assert_eq!(configs.len(), 1);
    assert_eq!(configs[0].profile, "two");
}

#[test]
fn disabled_commands_filter_case_insensitively() {
    let disabled = parse_disabled_list(" Clear , EXPORT ,,");
    assert_eq!(disabled, vec!["clear".to_string(), "export".to_string()]);
    assert!(!is_enabled(&disabled, "clear"));
    assert!(!is_enabled(&disabled, "CLEAR"));
    assert!(is_enabled(&disabled, "history"));
    let none = parse_disabled_list("");
    assert!(none.is_empty());
    assert!(is_enabled(&none, "clear"));
}

#[test]
fn clear_command_metadata_and_effect() {
    let cmd = ClearCommand::new();
    assert_eq!(cmd.metadata().id, "clear");
    assert_eq!(cmd.metadata().name, "/clear");
    assert!(cmd.metadata().requires_confirmation);
    assert!(!cmd.is_available(None));
}

fn png_with_text_chunk(keyword: &[u8], payload: &[u8]) -> Vec<u8> {
    let mut bytes = vec![0x89, 0x50, 0x4e, 0x47, 0x0d, 0x0a, 0x1a, 0x0a];
    let mut data = Vec::new();
    data.extend_from_slice(keyword);
    data.push(0);
    data.extend_from_slice(payload);
    bytes.extend_from_slice(&(data.len() as u32).to_be_bytes());
    bytes.extend_from_slice(b"tEXt");
    bytes.extend_from_slice(&data);
    bytes.extend_from_slice(&[0, 0, 0, 0]); // checksum, not verified here
    bytes
}

#[test]
fn png_chara_chunk_round_trips() {
    let json = "{\"name\":\"Lyra\"}";
    let encoded = base64::engine::general_purpose::STANDARD.encode(json.as_bytes());
    let bytes = png_with_text_chunk(b"chara", encoded.as_bytes());
    let got = PngMetadataUtils::read_character_data_from_bytes(&bytes).unwrap();
    assert_eq!(got, json);
    // the ccv3 keyword works too
    let bytes3 = png_with_text_chunk(b"ccv3", encoded.as_bytes());
    assert_eq!(PngMetadataUtils::read_character_data_from_bytes(&bytes3).unwrap(), json);
}

#[test]
fn png_errors_are_classified() {
    assert_eq!(
        PngMetadataUtils::read_character_data_from_bytes(&[1, 2, 3]),
        Err(PngMetadataError::InvalidImageFormat)
    );
    let other = png_with_text_chunk(b"title", b"bm90IGNhcmQ=");
    assert_eq!(
        PngMetadataUtils::read_character_data_from_bytes(&other),
        Err(PngMetadataError::CharaDataNotFound)
    );
    let bad = png_with_text_chunk(b"chara", b"!!! not base64 !!!");
    assert_eq!(
        PngMetadataUtils::read_character_data_from_bytes(&bad),
        Err(PngMetadataError::DecodeFailed)
    );
}

#[test]
fn tool_choice_classification() {
    let auto = AIChatService::classify_tool_choice(&ToolChoice::Mode("Auto".to_string()));
    assert!(matches!(auto, Some(ToolChoiceKind::Auto)));
    let none = AIChatService::classify_tool_choice(&ToolChoice::Mode("none".to_string()));
    assert!(matches!(none, Some(ToolChoiceKind::NoTools)));
    let req = AIChatService::classify_tool_choice(&ToolChoice::Mode("REQUIRED".to_string()));
    assert!(matches!(req, Some(ToolChoiceKind::Required)));
    let odd = AIChatService::classify_tool_choice(&ToolChoice::Mode("maybe".to_string()));
    assert!(odd.is_none());
    let named = AIChatService::classify_tool_choice(&ToolChoice::Function {
        choice_type: "function".to_string(),
        function: ToolTarget { name: "edit_character".to_string() },
    });
    match named {
        Some(ToolChoiceKind::Named(n)) => assert_eq!(n, "edit_character"),
        _ => panic!("expected a named choice"),
    }
    let wrong = AIChatService::classify_tool_choice(&ToolChoice::Function {
        choice_type: "tool".to_string(),
        function: ToolTarget { name: "x".to_string() },
    });
    assert!(wrong.is_none());
}

#[test]
fn configured_endpoint_resolves_to_base_url() {
    let config = ApiConfig {
        profile: "p".to_string(),
        endpoint: "https://x.test/".to_string(),
        key: String::new(),
        model: String::new(),
        default: true,
        enabled: true,
    };
    assert_eq!(AIChatService::base_url(&config), "https://x.test/v1");
}
