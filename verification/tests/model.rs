use agentverse::memory::{ContentBlock, Message, MessageRole};
use agentverse::model::{CycleResult, GenerateResponse, UsageStats};

#[test]
fn usage_stats_add_assign() {
    let mut a = UsageStats { input_tokens: 10, output_tokens: 5, cache_write_tokens: 100, cache_read_tokens: 0 };
    let b = UsageStats { input_tokens: 20, output_tokens: 8, cache_write_tokens: 0, cache_read_tokens: 100 };
    a += b;
    assert_eq!(a.input_tokens, 30);
    assert_eq!(a.output_tokens, 13);
    assert_eq!(a.cache_write_tokens, 100);
    assert_eq!(a.cache_read_tokens, 100);
}

#[test]
fn usage_stats_default_is_zero() {
    let u = UsageStats::default();
    assert_eq!(u.input_tokens, 0);
    assert_eq!(u.cache_read_tokens, 0);
}

#[test]
fn cycle_result_holds_answer_and_usage() {
    let r = CycleResult {
        answer: "done".to_string(),
        total_usage: UsageStats { input_tokens: 50, output_tokens: 10, cache_write_tokens: 40, cache_read_tokens: 40 },
    };
    assert_eq!(r.answer, "done");
    assert_eq!(r.total_usage.cache_read_tokens, 40);
}

#[test]
fn generate_response_as_text_flattens_content() {
    let resp = GenerateResponse {
        content: vec![ContentBlock::Text { text: "42".to_string() }],
        usage: UsageStats::default(),
    };
    assert_eq!(resp.as_text(), "42");
}

#[test]
fn usage_sum_wraps_past_the_maximum() {
    let mut a = UsageStats { input_tokens: u32::MAX, output_tokens: 1, cache_write_tokens: 0, cache_read_tokens: 0 };
    a += UsageStats { input_tokens: 2, output_tokens: 1, cache_write_tokens: 0, cache_read_tokens: 0 };
    assert_eq!(a.input_tokens, 1);
    assert_eq!(a.output_tokens, 2);
}

#[test]
fn text_constructor_wraps_a_single_text_block() {
    let m = Message::text(MessageRole::User, "hello");
    assert_eq!(m.role, MessageRole::User);
    assert_eq!(m.content, vec![ContentBlock::Text { text: "hello".to_string() }]);
}

#[test]
fn as_text_flattens_a_single_text_block() {
    let m = Message::text(MessageRole::Assistant, "hi there");
    assert_eq!(m.as_text(), "hi there");
}

#[test]
fn as_text_summarizes_tool_use_and_tool_result_blocks() {
    let mut input = serde_json::Map::new();
    input.insert("start_date".to_string(), serde_json::Value::String("2026-01-01".to_string()));
    let m = Message {
        role: MessageRole::Assistant,
        content: vec![
            ContentBlock::Text { text: "checking the schedule".to_string() },
            ContentBlock::ToolUse {
                id: "call_1".to_string(),
                name: "milestone_scheduler".to_string(),
                input: serde_json::Value::Object(input),
            },
        ],
    };
    assert_eq!(m.as_text(), "checking the schedule\n[tool_use: milestone_scheduler]");
    let r = Message {
        role: MessageRole::Tool,
        content: vec![ContentBlock::ToolResult {
            tool_use_id: "call_1".to_string(),
            content: "{\"total_weeks\": 12}".to_string(),
            is_error: false,
        }],
    };
    assert_eq!(r.as_text(), "[tool_result call_1: {\"total_weeks\": 12}]");
}

#[test]
fn content_as_text_handles_empty_slice() {
    assert_eq!(agentverse::memory::content_as_text(&[]), "");
}
