use agentverse::error::ModelError;
use agentverse::gemini::{GeminiContent, GeminiProvider};
use agentverse::memory::{ContentBlock, Message, MessageRole};
use agentverse::model::{GenerateRequest, ToolDefinition};
use agentverse::openai::{OpenAICompatible, ReplyMessage, ReplyToolCall, ReplyUsage};

fn schema() -> serde_json::Value {
    serde_json::from_str(r#"{"type":"object","properties":{}}"#).unwrap()
}

fn tool(name: &str) -> ToolDefinition {
    ToolDefinition { name: name.to_string(), description: format!("{name} tool"), parameters: schema() }
}

fn usage() -> ReplyUsage {
    ReplyUsage { prompt_tokens: 7, completion_tokens: 3, cached_tokens: 2 }
}

#[test]
fn openai_names_and_paths() {
    let p = OpenAICompatible::new();
    assert_eq!(p.name(), "openai");
    assert_eq!(p.endpoint_path("any"), "/chat/completions");
    assert!(p.disable_thinking());
    let h = p.request_headers("sk-1");
    assert_eq!(h, vec![("Authorization".to_string(), "Bearer sk-1".to_string())]);
    assert!(p.request_headers("bad\nkey").is_empty());
}

#[test]
fn openai_thinking_setting() {
    assert!(OpenAICompatible::from_setting(None).disable_thinking());
    assert!(!OpenAICompatible::from_setting(Some("0")).disable_thinking());
    assert!(OpenAICompatible::from_setting(Some("FALSE")).disable_thinking());
    assert!(OpenAICompatible::from_setting(Some("false")).disable_thinking());
    assert!(OpenAICompatible::from_setting(Some("1")).disable_thinking());
}

#[test]
fn openai_request_puts_system_first_and_tool_results_as_tool_messages() {
    let p = OpenAICompatible::new();
    let req = GenerateRequest {
        system: Some("be brief".to_string()),
        messages: vec![
            Message::text(MessageRole::User, "hi"),
            Message {
                role: MessageRole::Assistant,
                content: vec![ContentBlock::ToolUse { id: "c1".to_string(), name: "calc".to_string(), input: schema() }],
            },
            Message {
                role: MessageRole::Tool,
                content: vec![ContentBlock::ToolResult {
                    tool_use_id: "c1".to_string(),
                    content: "4".to_string(),
                    is_error: true,
                }],
            },
        ],
        tools: Some(vec![tool("calc")]),
        response_format: None,
    };
    let c = p.build_request("gpt", req).unwrap();
    assert_eq!(c.model, "gpt");
    assert_eq!(c.messages.len(), 4);
    assert_eq!(c.messages[0].role, "system");
    assert_eq!(c.messages[0].content.as_deref(), Some("be brief"));
    assert_eq!(c.messages[1].content.as_deref(), Some("hi"));
    assert_eq!(c.messages[2].role, "assistant");
    assert!(c.messages[2].content.is_none());
    assert_eq!(c.messages[2].tool_calls.as_ref().unwrap()[0].id, "c1");
    assert_eq!(c.messages[3].role, "tool");
    assert_eq!(c.messages[3].content.as_deref(), Some("Error: 4"));
    assert_eq!(c.messages[3].tool_call_id.as_deref(), Some("c1"));
    let tools = c.tools.unwrap();
    assert!(tools[0].strict);
    assert_eq!(tools[0].name, "calc");
}

#[test]
fn openai_request_refuses_a_text_block_in_a_tool_message() {
    let p = OpenAICompatible::new();
    let req = GenerateRequest {
        system: None,
        messages: vec![Message::text(MessageRole::Tool, "oops")],
        tools: None,
        response_format: None,
    };
    assert!(matches!(p.build_request("m", req), Err(ModelError::InvalidResponse(_))));
}

#[test]
fn openai_reply_with_text_and_tool_call() {
    let m = ReplyMessage {
        content: Some("Checking.".to_string()),
        tool_calls: vec![ReplyToolCall { id: "t1".to_string(), name: "calc".to_string(), arguments: "{\"x\":1}".to_string() }],
    };
    let r = agentverse::openai::parse_reply(Some(m), usage()).unwrap();
    assert_eq!(r.content.len(), 2);
    match &r.content[1] {
        ContentBlock::ToolUse { id, name, input } => {
            assert_eq!(id, "t1");
            assert_eq!(name, "calc");
            assert_eq!(input["x"], 1);
        }
        other => panic!("expected ToolUse, got {other:?}"),
    }
    assert_eq!(r.usage.input_tokens, 7);
    assert_eq!(r.usage.output_tokens, 3);
    assert_eq!(r.usage.cache_read_tokens, 2);
    assert_eq!(r.usage.cache_write_tokens, 0);
}

#[test]
fn openai_reply_errors() {
    let r = agentverse::openai::parse_reply(None, usage());
    assert!(matches!(r, Err(ModelError::InvalidResponse(ref m)) if m == "No content in response"));
    let blank = ReplyMessage { content: Some("   ".to_string()), tool_calls: vec![] };
    assert!(matches!(agentverse::openai::parse_reply(Some(blank), usage()), Err(ModelError::InvalidResponse(ref m)) if m == "No content in response"));
    let bad = ReplyMessage {
        content: None,
        tool_calls: vec![ReplyToolCall { id: "t".to_string(), name: "n".to_string(), arguments: "{not json".to_string() }],
    };
    assert!(matches!(agentverse::openai::parse_reply(Some(bad), usage()), Err(ModelError::InvalidResponse(ref m)) if m.starts_with("invalid tool_call arguments JSON: ")));
}

#[test]
fn gemini_paths_and_headers() {
    let g = GeminiProvider::new();
    assert_eq!(g.name(), "gemini");
    assert_eq!(g.endpoint_path("gemini-pro"), "/v1beta/models/gemini-pro:generateContent");
    assert!(g.request_headers("k").is_empty());
}

#[test]
fn gemini_request_maps_roles_and_skips_system() {
    let g = GeminiProvider::new();
    let req = GenerateRequest {
        system: Some("sys".to_string()),
        messages: vec![
            Message::text(MessageRole::System, "ignored"),
            Message::text(MessageRole::User, "q"),
            Message::text(MessageRole::Assistant, "a"),
            Message::text(MessageRole::Tool, "t"),
        ],
        tools: Some(vec![tool("f")]),
        response_format: None,
    };
    let r = g.build_request("m", req);
    assert_eq!(r.system_instruction.as_deref(), Some("sys"));
    let roles: Vec<&str> = r.contents.iter().map(|c| c.role.as_str()).collect();
    assert_eq!(roles, ["user", "model", "user"]);
    assert_eq!(r.contents[1].parts, vec!["a".to_string()]);
    let tools = r.tools.unwrap();
    assert_eq!(tools.len(), 1);
    assert_eq!(tools[0].functions[0].name, "f");
}

#[test]
fn gemini_reply_takes_the_first_part() {
    let g = GeminiProvider::new();
    let r = g
        .parse_reply(vec![GeminiContent { role: "model".to_string(), parts: vec!["one".to_string(), "two".to_string()] }])
        .unwrap();
    assert_eq!(r.as_text(), "one");
    assert_eq!(r.usage.input_tokens, 0);
    let e = g.parse_reply(vec![]).unwrap_err();
    assert!(matches!(e, ModelError::InvalidResponse(ref m) if m == "No content in response"));
}

fn refusal(messages: Vec<Message>) -> String {
    let req = GenerateRequest { system: None, messages, tools: None, response_format: None };
    match OpenAICompatible::new().build_request("gpt", req) {
        Err(ModelError::InvalidResponse(m)) => m,
        _ => panic!("expected a refusal"),
    }
}

#[test]
fn openai_refusals_name_the_offending_block() {
    let result = ContentBlock::ToolResult { tool_use_id: "c1".to_string(), content: "4".to_string(), is_error: false };
    assert_eq!(
        refusal(vec![Message { role: MessageRole::User, content: vec![result.clone()] }]),
        "user-role message must not contain a ToolResult block"
    );
    assert_eq!(
        refusal(vec![Message {
            role: MessageRole::Tool,
            content: vec![result.clone(), ContentBlock::Text { text: "oops".to_string() }],
        }]),
        "Tool-role message must contain only ToolResult blocks, found Text { text: \"oops\" }"
    );
    assert_eq!(
        refusal(vec![
            Message {
                role: MessageRole::Tool,
                content: vec![ContentBlock::ToolUse { id: "i".to_string(), name: "n".to_string(), input: serde_json::Value::Null }],
            },
            Message { role: MessageRole::Assistant, content: vec![result] },
        ]),
        "Tool-role message must contain only ToolResult blocks, found ToolUse { id: \"i\", name: \"n\", input: Null }"
    );
}

#[test]
fn openai_bad_arguments_carry_the_parser_message() {
    let bad = ReplyMessage {
        content: None,
        tool_calls: vec![
            ReplyToolCall { id: "a".to_string(), name: "n".to_string(), arguments: "{}".to_string() },
            ReplyToolCall { id: "b".to_string(), name: "n".to_string(), arguments: "{not json".to_string() },
        ],
    };
    let expected = serde_json::from_str::<serde_json::Value>("{not json").unwrap_err().to_string();
    match agentverse::openai::parse_reply(Some(bad), usage()) {
        Err(ModelError::InvalidResponse(m)) => assert_eq!(m, format!("invalid tool_call arguments JSON: {expected}")),
        _ => panic!("expected a refusal"),
    }
}
