use voxclaw::agent::error::AgentError;
use voxclaw::agent::provider::anthropic::AnthropicProvider;
use voxclaw::agent::provider::openai::{
    parse_chat_response, read_response, request_body, response_preview, OpenAiProvider,
};
use voxclaw::agent::provider::{
    api_error, create_provider, request_error, ProviderCapabilities,
};
use voxclaw::agent::request::{
    LlmFunctionCall, LlmMessage, LlmRequest, LlmStreamEvent, LlmTool, LlmToolCall, StopReason,
    ThinkingConfig, ThinkingLevel,
};
use voxclaw::json::{parse, Json};

fn value(source: &str) -> Json {
    match parse(source) {
        Ok(v) => v,
        Err(e) => panic!("{}", e),
    }
}

fn at<'a>(v: &'a Json, key: &str) -> &'a Json {
    match v.get(key) {
        Some(m) => m,
        None => panic!("no member {}", key),
    }
}

fn anthropic() -> AnthropicProvider {
    AnthropicProvider::new("https://api.anthropic.com", "k", "m")
}

fn request(messages: Vec<LlmMessage>) -> LlmRequest {
    LlmRequest { model: "m".to_string(), messages, tools: vec![], thinking: None, max_tokens: None }
}

#[test]
fn provider_capabilities_default() {
    let caps = ProviderCapabilities::default();
    assert!(!caps.thinking);
    assert!(!caps.vision);
}

#[test]
fn openai_provider_factory() {
    let provider =
        create_provider("openai_compatible", "https://api.openai.com/v1", "test-key", "gpt-4o");
    assert!(provider.is_ok());
    match provider {
        Ok(p) => assert_eq!(p.name(), "openai_compatible"),
        Err(_) => unreachable!(),
    }
}

#[test]
fn create_provider_factory_anthropic() {
    let provider = create_provider(
        "anthropic",
        "https://api.anthropic.com",
        "test-key",
        "sonnet-4-20250514",
    );
    assert!(provider.is_ok());
    match provider {
        Ok(p) => {
            assert_eq!(p.name(), "anthropic");
            assert!(p.capabilities().thinking);
        }
        Err(_) => unreachable!(),
    }
}

#[test]
fn an_unknown_provider_is_refused() {
    match create_provider("carrier_pigeon", "u", "k", "m") {
        Ok(_) => panic!("there is no such provider"),
        Err(e) => assert!(e.message().contains("carrier_pigeon")),
    }
}

#[test]
fn anthropic_provider_creation() {
    let provider =
        AnthropicProvider::new("https://api.anthropic.com", "test-key", "sonnet-4-20250514");
    assert_eq!(provider.name(), "anthropic");
}

#[test]
fn anthropic_capabilities() {
    let caps = anthropic().capabilities();
    assert!(caps.thinking);
    assert!(caps.vision);
    assert!(caps.tool_calling);
    assert!(!caps.streaming);
}

#[test]
fn addresses_lose_trailing_slashes() {
    assert_eq!(
        AnthropicProvider::new("https://host//", "k", "m").url(),
        "https://host/v1/messages"
    );
    let openai = OpenAiProvider::new("https://host/v1/", "key", "m");
    assert_eq!(openai.url(), "https://host/v1/chat/completions");
    assert_eq!(openai.authorization(), "Bearer key");
}

#[test]
fn convert_messages_extracts_system() {
    let messages = vec![LlmMessage::system("You are helpful."), LlmMessage::user("Hello")];
    let (system, api_msgs) = anthropic().convert_messages(&messages);
    assert_eq!(system, Some("You are helpful.".to_string()));
    assert_eq!(api_msgs.len(), 1);
    assert_eq!(api_msgs[0].get_text("role"), "user");
}

fn weather_call() -> LlmMessage {
    LlmMessage::assistant_tool_calls(vec![LlmToolCall {
        id: "call_1".into(),
        call_type: "function".into(),
        function: LlmFunctionCall {
            name: "get_weather".into(),
            arguments: r#"{"city":"NYC"}"#.into(),
        },
    }])
}

#[test]
fn convert_messages_tool_results_create_user_message() {
    let messages = vec![
        LlmMessage::user("What is the weather?"),
        weather_call(),
        LlmMessage::tool_result("call_1", "Sunny, 72F"),
    ];
    let (_system, api_msgs) = anthropic().convert_messages(&messages);
    // user, assistant (with tool_use), new user (with tool_result)
    assert_eq!(api_msgs.len(), 3);

    // The first user message should contain only the text
    let user_content = at(&api_msgs[0], "content");
    assert_eq!(user_content.item_count(), 1);
    assert_eq!(user_content.item(0).get_text("type"), "text");

    // The assistant message should contain a tool_use block
    let asst_content = at(&api_msgs[1], "content");
    assert_eq!(asst_content.item_count(), 1);
    assert_eq!(asst_content.item(0).get_text("type"), "tool_use");
    assert_eq!(asst_content.item(0).get_text("name"), "get_weather");
    assert_eq!(at(asst_content.item(0), "input").get_text("city"), "NYC");

    // The second user message should contain the tool_result
    let result_content = at(&api_msgs[2], "content");
    assert_eq!(result_content.item_count(), 1);
    assert_eq!(result_content.item(0).get_text("type"), "tool_result");
    assert_eq!(result_content.item(0).get_text("tool_use_id"), "call_1");
}

#[test]
fn tool_results_share_a_message() {
    let messages = vec![
        weather_call(),
        LlmMessage::tool_result("call_1", "Sunny"),
        LlmMessage::tool_result("call_2", "Rainy"),
    ];
    let (system, api_msgs) = anthropic().convert_messages(&messages);
    assert!(system.is_none());
    assert_eq!(api_msgs.len(), 2);
    assert_eq!(at(&api_msgs[1], "content").item_count(), 2);
    assert_eq!(at(&api_msgs[1], "content").item(1).get_text("tool_use_id"), "call_2");
}

#[test]
fn parse_response_text_and_stop() {
    let body = value(
        r#"{"content": [{"type": "text", "text": "Hello!"}], "stop_reason": "end_turn"}"#,
    );
    let events = anthropic().parse_response(&body, &vec![None]);
    assert_eq!(events.len(), 2);
    assert!(matches!(&events[0], LlmStreamEvent::TextDelta(t) if t == "Hello!"));
    assert!(matches!(&events[1], LlmStreamEvent::Done { stop_reason: StopReason::Stop }));
}

const TOOL_USE: &str = r#"{
    "content": [{"type": "tool_use", "id": "tu_1", "name": "read_file", "input": {"path": "/tmp/test"}}],
    "stop_reason": "tool_use"
}"#;

#[test]
fn parse_response_tool_use() {
    let body = value(TOOL_USE);
    let input = Some(r#"{"path":"/tmp/test"}"#.to_string());
    let events = anthropic().parse_response(&body, &vec![input]);
    assert!(matches!(&events[0], LlmStreamEvent::ToolCallStart { id, name, .. }
        if id == "tu_1" && name == "read_file"));
    assert!(matches!(&events[3], LlmStreamEvent::Done { stop_reason: StopReason::ToolCalls }));
}

#[test]
fn parse_response_thinking() {
    let body = value(
        r#"{"content": [
            {"type": "thinking", "thinking": "Let me think..."},
            {"type": "text", "text": "Here is my answer."}
        ], "stop_reason": "end_turn"}"#,
    );
    let events = anthropic().parse_response(&body, &vec![None, None]);
    assert_eq!(events.len(), 3);
    assert!(matches!(&events[0], LlmStreamEvent::ThinkingDelta(t) if t == "Let me think..."));
    assert!(matches!(&events[1], LlmStreamEvent::TextDelta(t) if t == "Here is my answer."));
}

#[test]
fn tool_inputs_are_handed_on_in_compact_form() {
    let events = match anthropic().read_response(None, TOOL_USE) {
        Ok(e) => e,
        Err(e) => panic!("{}", e.message()),
    };
    assert_eq!(events.len(), 4);
    assert!(matches!(&events[1], LlmStreamEvent::ToolCallDelta { arguments_delta, .. }
        if arguments_delta == r#"{"path":"/tmp/test"}"#));
}

#[test]
fn failed_responses_are_errors() {
    let failed = anthropic().read_response(Some("429 Too Many Requests"), "slow down");
    match failed {
        Ok(_) => panic!("the response failed"),
        Err(e) => assert_eq!(
            e.message(),
            "Provider error: API error (429 Too Many Requests): slow down"
        ),
    }
    match anthropic().read_response(None, "not json") {
        Ok(_) => panic!("the response cannot be read"),
        Err(e) => {
            let why = serde_json::from_str::<serde_json::Value>("not json").unwrap_err();
            assert_eq!(
                e.message(),
                format!("Provider error: Parse error: {} | raw response: not json", why)
            );
        }
    }
    match read_response(Some("500"), "broken") {
        Ok(_) => panic!("the response failed"),
        Err(e) => assert_eq!(e.message(), "Provider error: API error (500): broken"),
    }
    match read_response(None, "{") {
        Ok(_) => panic!("the response cannot be read"),
        Err(e) => assert!(e.message().ends_with(" | raw response preview: {")),
    }
    assert_eq!(api_error("404", "x").message(), "Provider error: API error (404): x");
    assert_eq!(request_error("dns").message(), "Provider error: Request failed: dns");
}

#[test]
fn response_preview_handles_multibyte_text() {
    assert_eq!(response_preview("你好，世界", 4), "你好，世");
}

#[test]
fn chat_responses_become_pieces() {
    let body = value(
        r#"{"choices": [{"message": {"content": "hi", "tool_calls": [
            {"id": "c1", "function": {"name": "bash", "arguments": "{}"}},
            {"id": "c2", "function": {"name": "glob"}}
        ]}, "finish_reason": "tool_calls"}],
        "usage": {"prompt_tokens": 10, "completion_tokens": 3, "total_tokens": 13,
                  "prompt_tokens_details": {"cached_tokens": 4}}}"#,
    );
    let events = parse_chat_response(&body);
    assert_eq!(events.len(), 8);
    assert!(matches!(&events[0], LlmStreamEvent::TextDelta(t) if t == "hi"));
    assert!(matches!(&events[1], LlmStreamEvent::ToolCallStart { index: 0, id, .. } if id == "c1"));
    assert!(matches!(&events[2], LlmStreamEvent::ToolCallDelta { index: 0, arguments_delta }
        if arguments_delta == "{}"));
    assert!(matches!(&events[3], LlmStreamEvent::ToolCallEnd { index: 0 }));
    assert!(matches!(&events[4], LlmStreamEvent::ToolCallStart { index: 1, name, .. }
        if name == "glob"));
    assert!(matches!(&events[5], LlmStreamEvent::ToolCallEnd { index: 1 }));
    assert!(matches!(&events[6], LlmStreamEvent::Usage(u)
        if u.input == 10 && u.output == 3 && u.cache_read == 4 && u.total == 13));
    assert!(matches!(&events[7], LlmStreamEvent::Done { stop_reason: StopReason::ToolCalls }));
    assert_eq!(parse_chat_response(&value("{}")).len(), 0);
    assert_eq!(parse_chat_response(&value(r#"{"choices": []}"#)).len(), 0);
}

#[test]
fn chat_requests_hold_what_was_asked() {
    let mut req = request(vec![
        LlmMessage::user("hello"),
        weather_call(),
        LlmMessage::tool_result("call_1", "Sunny"),
    ]);
    req.max_tokens = Some(77);
    req.tools = vec![LlmTool::new("bash", "runs", value(r#"{"type":"object"}"#))];
    let body = request_body(req);
    assert_eq!(body.get_text("model"), "m");
    assert!(matches!(at(&body, "stream"), Json::Bool(false)));
    assert_eq!(body.get_number("max_tokens"), 77);
    assert_eq!(body.get_text("tool_choice"), "auto");
    let messages = at(&body, "messages");
    assert_eq!(messages.item_count(), 3);
    assert_eq!(messages.item(0).get_text("content"), "hello");
    assert!(messages.item(0).get("tool_calls").is_none());
    assert_eq!(at(messages.item(1), "tool_calls").item(0).get_text("id"), "call_1");
    assert_eq!(messages.item(2).get_text("tool_call_id"), "call_1");
    assert_eq!(at(at(&body, "tools").item(0), "function").get_text("name"), "bash");
}

#[test]
fn messages_requests_hold_what_was_asked() {
    let mut req = request(vec![LlmMessage::system("be kind"), LlmMessage::user("hello")]);
    req.thinking = Some(ThinkingConfig { level: ThinkingLevel::High, budget_tokens: Some(2048) });
    req.tools = vec![LlmTool::new("bash", "runs", value(r#"{"type":"object"}"#))];
    let body = anthropic().request_body(req);
    assert_eq!(body.get_number("max_tokens"), 4096);
    assert_eq!(body.get_text("system"), "be kind");
    assert_eq!(at(&body, "messages").item_count(), 1);
    assert_eq!(at(&body, "tool_choice").get_text("type"), "auto");
    assert_eq!(at(at(&body, "tools").item(0), "input_schema").get_text("type"), "object");
    assert_eq!(at(&body, "thinking").get_text("type"), "enabled");
    assert_eq!(at(&body, "thinking").get_number("budget_tokens"), 2048);

    let mut by_level = request(vec![LlmMessage::user("hello")]);
    by_level.thinking = Some(ThinkingConfig { level: ThinkingLevel::Medium, budget_tokens: None });
    let body = anthropic().request_body(by_level);
    assert_eq!(at(&body, "thinking").get_number("budget_tokens"), 1024);

    let bare = anthropic().request_body(request(vec![LlmMessage::user("hello")]));
    assert!(bare.get("system").is_none());
    assert!(bare.get("tools").is_none());
    assert!(bare.get("thinking").is_none());
}

#[test]
fn errors_name_their_kind() {
    assert_eq!(AgentError::Tool("x".into()).message(), "Tool error: x");
    assert!(AgentError::UnknownTool("x".into()).message().contains('x'));
    assert!(AgentError::MaxIterationsReached(4).message().contains('4'));
    assert!(AgentError::InvalidToolArguments("bad".into()).message().ends_with("bad"));
    assert!(AgentError::Context("c".into()).message().ends_with('c'));
    assert!(AgentError::Http("h".into()).message().ends_with('h'));
}
