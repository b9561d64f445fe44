use agentverse::anthropic::{build_wire_request, parse_reply, AnthropicProvider, ReplyItem, ReplyUsage, WireBlock};
use agentverse::error::ModelError;
use agentverse::memory::{ContentBlock, Message, MessageRole};
use agentverse::model::{GenerateRequest, ToolDefinition};

fn user(content: &str) -> Message {
    Message::text(MessageRole::User, content)
}

fn assistant(content: &str) -> Message {
    Message::text(MessageRole::Assistant, content)
}

fn empty_object_schema() -> serde_json::Value {
    serde_json::from_str(r#"{"type":"object","properties":{}}"#).unwrap()
}

fn tool_def(name: &str) -> ToolDefinition {
    ToolDefinition {
        name: name.to_string(),
        description: format!("{} description", name),
        parameters: empty_object_schema(),
    }
}

fn request(system: Option<&str>, messages: Vec<Message>, tools: Option<Vec<ToolDefinition>>) -> GenerateRequest {
    GenerateRequest { system: system.map(|s| s.to_string()), messages, tools, response_format: None }
}

fn cached(b: &WireBlock) -> bool {
    match b {
        WireBlock::Text { cached, .. } => *cached,
        WireBlock::ToolUse { cached, .. } => *cached,
        WireBlock::ToolResult { cached, .. } => *cached,
    }
}

fn text_of(b: &WireBlock) -> Option<&str> {
    match b {
        WireBlock::Text { text, .. } => Some(text.as_str()),
        _ => None,
    }
}

fn usage() -> ReplyUsage {
    ReplyUsage { input_tokens: 10, output_tokens: 5, cache_creation_input_tokens: 0, cache_read_input_tokens: 0 }
}

fn text_item(t: &str) -> ReplyItem {
    ReplyItem { content_type: "text".to_string(), text: Some(t.to_string()), id: None, name: None, input: None }
}

fn tool_item(id: Option<&str>, name: Option<&str>, input: Option<serde_json::Value>) -> ReplyItem {
    ReplyItem {
        content_type: "tool_use".to_string(),
        text: None,
        id: id.map(|s| s.to_string()),
        name: name.map(|s| s.to_string()),
        input,
    }
}

#[test]
fn endpoint_path_is_messages() {
    let provider = AnthropicProvider::new();
    assert_eq!(provider.endpoint_path("any-model"), "/v1/messages");
}

#[test]
fn system_block_is_always_cached() {
    let wire = build_wire_request("m", request(Some("You are helpful."), vec![user("hi")], None));
    assert_eq!(wire.system.len(), 1);
    assert_eq!(text_of(&wire.system[0]).unwrap(), "You are helpful.");
    assert!(cached(&wire.system[0]));
}

#[test]
fn no_system_produces_empty_system_vec() {
    let wire = build_wire_request("m", request(None, vec![user("hi")], None));
    assert!(wire.system.is_empty());
}

#[test]
fn last_tool_is_cached_others_are_not() {
    let wire = build_wire_request(
        "m",
        request(None, vec![user("hi")], Some(vec![tool_def("alpha"), tool_def("beta"), tool_def("gamma")])),
    );
    let tools = wire.tools.unwrap();
    assert_eq!(tools.len(), 3);
    assert_eq!(tools[0].name, "alpha");
    assert_eq!(tools[0].description, "alpha description");
    assert_eq!(tools[0].input_schema, empty_object_schema());
    assert!(!tools[0].cached, "alpha must not be cached");
    assert!(!tools[1].cached, "beta must not be cached");
    assert!(tools[2].cached, "gamma (last) must be cached");
}

#[test]
fn single_message_has_no_message_cache_breakpoint() {
    let wire = build_wire_request("m", request(None, vec![user("only message")], None));
    assert_eq!(wire.messages.len(), 1);
    assert!(!cached(&wire.messages[0].content[0]), "single message must not be cached");
}

#[test]
fn penultimate_message_gets_cache_breakpoint() {
    let wire = build_wire_request("m", request(None, vec![user("q1"), assistant("a1"), user("q2")], None));
    let msgs = &wire.messages;
    assert_eq!(msgs.len(), 3);
    assert!(!cached(&msgs[0].content[0]), "user1 not cached");
    assert!(cached(&msgs[1].content[0]), "assistant1 (penultimate) must be cached");
    assert!(!cached(&msgs[2].content[0]), "user2 (current) must not be cached");
}

#[test]
fn two_messages_caches_first() {
    let wire = build_wire_request("m", request(None, vec![user("first"), user("second")], None));
    assert!(cached(&wire.messages[0].content[0]));
    assert!(!cached(&wire.messages[1].content[0]));
}

#[test]
fn system_role_messages_are_filtered_out() {
    let wire = build_wire_request(
        "m",
        request(None, vec![Message::text(MessageRole::System, "ignored"), user("hi")], None),
    );
    assert_eq!(wire.messages.len(), 1, "System-role message must be filtered");
    assert_eq!(text_of(&wire.messages[0].content[0]).unwrap(), "hi");
}

#[test]
fn request_headers_contains_api_key() {
    let provider = AnthropicProvider::new();
    let headers = provider.request_headers("test-key");
    assert!(headers.iter().any(|(k, v)| k == "x-api-key" && v == "test-key"));
    assert!(headers.iter().any(|(k, _)| k == "anthropic-version"));
}

#[test]
fn response_format_is_carried_as_output_schema() {
    let schema: serde_json::Value =
        serde_json::from_str(r#"{"type":"object","properties":{"nodes":{"type":"array"}}}"#).unwrap();
    let mut req = request(None, vec![user("plan this")], None);
    req.response_format = Some(schema.clone());
    let wire = build_wire_request("sonnet-model", req);
    assert_eq!(wire.output_schema, Some(schema));
}

#[test]
fn response_format_none_omits_output_config() {
    let wire = build_wire_request("sonnet-model", request(None, vec![user("hi")], None));
    assert!(wire.output_schema.is_none());
}

#[test]
fn tools_are_sent_with_strict_true() {
    let wire = build_wire_request("m", request(None, vec![user("hi")], Some(vec![tool_def("alpha")])));
    assert!(wire.tools.unwrap()[0].strict);
}

#[test]
fn parse_response_extracts_text_content() {
    let resp = parse_reply(vec![text_item("Hello!")], usage()).unwrap();
    assert_eq!(resp.as_text(), "Hello!");
    assert_eq!(resp.usage.input_tokens, 10);
}

#[test]
fn parse_response_extracts_tool_use_block() {
    let input: serde_json::Value = serde_json::from_str(r#"{"start_date": "2026-01-01"}"#).unwrap();
    let resp = parse_reply(vec![tool_item(Some("call_1"), Some("milestone_scheduler"), Some(input))], usage()).unwrap();
    assert_eq!(resp.content.len(), 1);
    match &resp.content[0] {
        ContentBlock::ToolUse { id, name, input } => {
            assert_eq!(id, "call_1");
            assert_eq!(name, "milestone_scheduler");
            assert_eq!(input["start_date"], "2026-01-01");
        }
        other => panic!("expected ToolUse, got {other:?}"),
    }
}

#[test]
fn parse_response_extracts_text_and_tool_use_together() {
    let resp = parse_reply(
        vec![
            text_item("Let me check the schedule."),
            tool_item(Some("call_1"), Some("milestone_scheduler"), Some(serde_json::Value::Object(Default::default()))),
        ],
        usage(),
    )
    .unwrap();
    assert_eq!(resp.content.len(), 2);
    assert!(matches!(resp.content[0], ContentBlock::Text { .. }));
    assert!(matches!(resp.content[1], ContentBlock::ToolUse { .. }));
}

#[test]
fn parse_response_malformed_tool_use_is_error() {
    let err = parse_reply(vec![tool_item(Some("x"), Some("fn"), None)], usage()).unwrap_err();
    assert!(err.message().contains("missing id, name, or input"));
}

#[test]
fn parse_response_malformed_tool_use_errors_even_with_text_present() {
    let err = parse_reply(vec![text_item("Let me look that up."), tool_item(Some("x"), Some("fn"), None)], usage())
        .unwrap_err();
    assert!(err.message().contains("missing id, name, or input"));
}

#[test]
fn parse_response_truly_empty_content_is_error() {
    let err = parse_reply(vec![], usage()).unwrap_err();
    assert!(err.message().contains("No text or tool_use content"));
    assert!(matches!(err, ModelError::InvalidResponse(_)));
}

#[test]
fn parse_response_skips_empty_text_blocks() {
    let resp = parse_reply(
        vec![text_item(""), tool_item(Some("call_1"), Some("fn"), Some(serde_json::Value::Object(Default::default())))],
        usage(),
    )
    .unwrap();
    assert_eq!(resp.content.len(), 1);
    assert!(matches!(resp.content[0], ContentBlock::ToolUse { .. }));
}

#[test]
fn build_wire_request_serializes_tool_result_block() {
    let wire = build_wire_request(
        "m",
        request(
            None,
            vec![Message {
                role: MessageRole::Tool,
                content: vec![ContentBlock::ToolResult {
                    tool_use_id: "call_1".to_string(),
                    content: "ok".to_string(),
                    is_error: false,
                }],
            }],
            None,
        ),
    );
    assert_eq!(wire.messages[0].role, "user");
    match &wire.messages[0].content[0] {
        WireBlock::ToolResult { tool_use_id, content, is_error, .. } => {
            assert_eq!(tool_use_id, "call_1");
            assert_eq!(content, "ok");
            assert!(!is_error);
        }
        other => panic!("expected ToolResult, got {other:?}"),
    }
}

#[test]
fn name_is_anthropic() {
    assert_eq!(AnthropicProvider::new().name(), "anthropic");
}
