//! Anthropic Messages API: the request with its prompt-cache markers, and the
//! reading of a reply.

use crate::error::ModelError;
use crate::memory::{conversation, is_system, BlockView, ContentBlock, Message, MessageRole};
use crate::model::{GenerateRequest, GenerateResponse, ToolDefinition, UsageStats};
use crate::text::{trim, trim_range, to_chars};
use vstd::prelude::*;

verus! {

#[derive(Debug, Clone)]
pub struct AnthropicProvider;

impl AnthropicProvider {
    pub fn new() -> Self {
        AnthropicProvider
    }

    pub fn name(&self) -> (s: &'static str)
        ensures
            s@ == "anthropic"@,
    {
        "anthropic"
    }

    pub fn endpoint_path(&self, _model: &str) -> (s: String)
        ensures
            s@ == "/v1/messages"@,
    {
        String::from_str("/v1/messages")
    }

    /// Request headers: the key (sent empty when it cannot be a header
    /// value), the API version and the prompt-caching beta.
    pub fn request_headers(&self, api_key: &str) -> (h: Vec<(String, String)>)
        ensures
            h@.len() == 3,
            h@[0].0@ == "x-api-key"@,
            h@[0].1@ == if crate::registry::header_text(api_key@) {
                api_key@
            } else {
                Seq::<char>::empty()
            },
            h@[1].0@ == "anthropic-version"@ && h@[1].1@ == "2023-06-01"@,
            h@[2].0@ == "anthropic-beta"@ && h@[2].1@ == "prompt-caching-2024-07-31"@,
    {
        let key = if crate::registry::header_value_ok(api_key) {
            String::from_str(api_key)
        } else {
            String::new()
        };
        let mut h: Vec<(String, String)> = Vec::new();
        h.push((String::from_str("x-api-key"), key));
        h.push((String::from_str("anthropic-version"), String::from_str("2023-06-01")));
        h.push((String::from_str("anthropic-beta"), String::from_str("prompt-caching-2024-07-31")));
        h
    }
}

/// A content block as the API receives it; `cached` places an ephemeral
/// cache breakpoint after it.
#[derive(Debug, Clone)]
pub enum WireBlock {
    Text { text: String, cached: bool },
    ToolUse { id: String, name: String, input: serde_json::Value, cached: bool },
    ToolResult { tool_use_id: String, content: String, is_error: bool, cached: bool },
}

#[derive(Debug, Clone)]
pub struct WireMessage {
    pub role: String,
    pub content: Vec<WireBlock>,
}

#[derive(Debug, Clone)]
pub struct WireTool {
    pub name: String,
    pub description: String,
    pub input_schema: serde_json::Value,
    pub cached: bool,
    pub strict: bool,
}

/// The body of a Messages API request. `output_schema`, when present, goes
/// out as a JSON-schema output format.
#[derive(Debug, Clone)]
pub struct AnthropicRequest {
    pub model: String,
    pub system: Vec<WireBlock>,
    pub messages: Vec<WireMessage>,
    pub tools: Option<Vec<WireTool>>,
    pub max_tokens: usize,
    pub output_schema: Option<serde_json::Value>,
}

/// Role of a message on the wire; system messages have none (they go in
/// the system field) and tool results travel as user turns.
pub open spec fn wire_role(r: MessageRole) -> Option<Seq<char>> {
    match r {
        MessageRole::User => Some("user"@),
        MessageRole::Assistant => Some("assistant"@),
        MessageRole::Tool => Some("user"@),
        MessageRole::System => None,
    }
}

/// `w` carries `b` unchanged, with a cache breakpoint exactly when `cached`.
pub open spec fn wire_block_of(w: WireBlock, b: ContentBlock, cached: bool) -> bool {
    match (w, b@) {
        (WireBlock::Text { text, cached: c }, BlockView::Text { text: t }) => text@ == t && c == cached,
        (WireBlock::ToolUse { id, name, input, cached: c }, BlockView::ToolUse { id: i, name: n, input: v }) => id@
            == i && name@ == n && input == v && c == cached,
        (
            WireBlock::ToolResult { tool_use_id, content, is_error, cached: c },
            BlockView::ToolResult { tool_use_id: u, content: t, is_error: e },
        ) => tool_use_id@ == u && content@ == t && is_error == e && c == cached,
        _ => false,
    }
}

/// The cache breakpoint in the conversation: the last block of the
/// second-to-last message, when there are at least two.
pub open spec fn breakpoint_at(n: int, k: int, j: int, len_k: int) -> bool {
    n >= 2 && k == n - 2 && j == len_k - 1
}

pub open spec fn wire_messages_of(ws: Seq<WireMessage>, conv: Seq<Message>) -> bool {
    &&& ws.len() == conv.len()
    &&& forall|k: int|
        #![trigger ws[k]]
        0 <= k < conv.len() ==> {
            &&& wire_role(conv[k].role) == Some(ws[k].role@)
            &&& ws[k].content@.len() == conv[k].content@.len()
            &&& forall|j: int|
                #![trigger ws[k].content@[j]]
                0 <= j < conv[k].content@.len() ==> wire_block_of(
                    ws[k].content@[j],
                    conv[k].content@[j],
                    breakpoint_at(conv.len() as int, k, j, conv[k].content@.len() as int),
                )
        }
}

pub open spec fn wire_tools_of(wt: Seq<WireTool>, ts: Seq<ToolDefinition>) -> bool {
    &&& wt.len() == ts.len()
    &&& forall|i: int|
        #![trigger wt[i]]
        0 <= i < ts.len() ==> {
            &&& wt[i].name@ == ts[i].name@
            &&& wt[i].description@ == ts[i].description@
            &&& wt[i].input_schema == ts[i].parameters
            &&& wt[i].strict
            &&& wt[i].cached == (i == ts.len() - 1)
        }
}

fn wire_block(b: &ContentBlock, cached: bool) -> (w: WireBlock)
    ensures
        wire_block_of(w, *b, cached),
{
    match b {
        ContentBlock::Text { text } => WireBlock::Text { text: text.clone(), cached },
        ContentBlock::ToolUse { id, name, input } => WireBlock::ToolUse {
            id: id.clone(),
            name: name.clone(),
            input: input.clone(),
            cached,
        },
        ContentBlock::ToolResult { tool_use_id, content, is_error } => WireBlock::ToolResult {
            tool_use_id: tool_use_id.clone(),
            content: content.clone(),
            is_error: *is_error,
            cached,
        },
    }
}

fn wire_role_of(r: MessageRole) -> (s: String)
    requires
        r != MessageRole::System,
    ensures
        wire_role(r) == Some(s@),
{
    match r {
        MessageRole::User => String::from_str("user"),
        MessageRole::Assistant => String::from_str("assistant"),
        _ => String::from_str("user"),
    }
}

/// Number of messages that are not system messages.
fn count_conversation(ms: &Vec<Message>) -> (n: usize)
    ensures
        n == conversation(ms@).len(),
{
    let mut n: usize = 0;
    let mut i: usize = 0;
    while i < ms.len()
        invariant
            i <= ms@.len(),
            n == conversation(ms@.take(i as int)).len(),
            n <= i,
        decreases ms.len() - i,
    {
        assert(ms@.take(i + 1).drop_last() =~= ms@.take(i as int));
        if ms[i].role != MessageRole::System {
            n += 1;
        }
        i += 1;
    }
    assert(ms@.take(ms@.len() as int) =~= ms@);
    n
}

/// Tool definitions as the API takes them: strict, with a cache breakpoint
/// after the last one.
fn wire_tools(ts: &Vec<ToolDefinition>) -> (wt: Vec<WireTool>)
    ensures
        wire_tools_of(wt@, ts@),
{
    let mut wt: Vec<WireTool> = Vec::new();
    let mut i: usize = 0;
    while i < ts.len()
        invariant
            i <= ts@.len(),
            wt@.len() == i,
            forall|k: int|
                #![trigger wt@[k]]
                0 <= k < i ==> {
                    &&& wt@[k].name@ == ts@[k].name@
                    &&& wt@[k].description@ == ts@[k].description@
                    &&& wt@[k].input_schema == ts@[k].parameters
                    &&& wt@[k].strict
                    &&& wt@[k].cached == (k == ts@.len() - 1)
                },
        decreases ts.len() - i,
    {
        let d = &ts[i];
        wt.push(
            WireTool {
                name: d.name.clone(),
                description: d.description.clone(),
                input_schema: d.parameters.clone(),
                cached: i + 1 == ts.len(),
                strict: true,
            },
        );
        i += 1;
    }
    wt
}

/// The wire form of a message's blocks, with a breakpoint after the last one
/// when `mark` holds.
fn wire_blocks(content: &Vec<ContentBlock>, mark: bool) -> (ws: Vec<WireBlock>)
    ensures
        ws@.len() == content@.len(),
        forall|j: int|
            #![trigger ws@[j]]
            0 <= j < content@.len() ==> wire_block_of(
                ws@[j],
                content@[j],
                mark && j == content@.len() - 1,
            ),
{
    let mut ws: Vec<WireBlock> = Vec::new();
    let mut j: usize = 0;
    while j < content.len()
        invariant
            j <= content@.len(),
            ws@.len() == j,
            forall|q: int|
                #![trigger ws@[q]]
                0 <= q < j ==> wire_block_of(ws@[q], content@[q], mark && q == content@.len() - 1),
        decreases content.len() - j,
    {
        ws.push(wire_block(&content[j], mark && j + 1 == content.len()));
        j += 1;
    }
    ws
}

/// The Messages API request for `request`. Cache breakpoints go after the
/// system prompt, after the last tool, and after the last block of the
/// second-to-last message; system messages are left out of the
/// conversation (the system prompt carries the system text).
pub fn build_wire_request(model_name: &str, request: GenerateRequest) -> (r: AnthropicRequest)
    ensures
        r.model@ == model_name@,
        r.max_tokens == 4096,
        r.output_schema == request.response_format,
        match request.system {
            Some(s) => r.system@.len() == 1 && (r.system@[0] matches WireBlock::Text { text, cached }
                && text@ == s@ && cached),
            None => r.system@.len() == 0,
        },
        match request.tools {
            Some(ts) => r.tools matches Some(wt) && wire_tools_of(wt@, ts@),
            None => r.tools is None,
        },
        wire_messages_of(r.messages@, conversation(request.messages@)),
{
    let tools = match &request.tools {
        Some(ts) => Some(wire_tools(ts)),
        None => None,
    };
    let mut system: Vec<WireBlock> = Vec::new();
    match &request.system {
        Some(s) => {
            system.push(WireBlock::Text { text: s.clone(), cached: true });
        },
        None => {},
    }
    let ms = &request.messages;
    let n = count_conversation(ms);
    let mut out: Vec<WireMessage> = Vec::new();
    let mut i: usize = 0;
    while i < ms.len()
        invariant
            i <= ms@.len(),
            n == conversation(ms@).len(),
            out@.len() == conversation(ms@.take(i as int)).len(),
            conversation(ms@.take(i as int)).len() <= n,
            forall|k: int|
                #![trigger out@[k]]
                0 <= k < out@.len() ==> {
                    let c = conversation(ms@.take(i as int))[k];
                    &&& wire_role(c.role) == Some(out@[k].role@)
                    &&& out@[k].content@.len() == c.content@.len()
                    &&& forall|j: int|
                        #![trigger out@[k].content@[j]]
                        0 <= j < c.content@.len() ==> wire_block_of(
                            out@[k].content@[j],
                            c.content@[j],
                            breakpoint_at(n as int, k, j, c.content@.len() as int),
                        )
                },
        decreases ms.len() - i,
    {
        let ghost before = conversation(ms@.take(i as int));
        assert(ms@.take(i + 1).drop_last() =~= ms@.take(i as int));
        proof {
            lemma_conversation_prefix_len(ms@, i + 1);
        }
        if ms[i].role != MessageRole::System {
            let m = &ms[i];
            let mark = n >= 2 && out.len() == n - 2;
            let blocks = wire_blocks(&m.content, mark);
            out.push(WireMessage { role: wire_role_of(m.role), content: blocks });
            assert(conversation(ms@.take(i + 1)) == before.push(ms@[i as int]));
        }
        i += 1;
    }
    assert(ms@.take(ms@.len() as int) =~= ms@);
    AnthropicRequest {
        model: String::from_str(model_name),
        system,
        messages: out,
        tools,
        max_tokens: 4096,
        output_schema: request.response_format,
    }
}

/// A prefix of a message list has no more conversation messages than the list.
proof fn lemma_conversation_prefix_len(ms: Seq<Message>, i: int)
    requires
        0 <= i <= ms.len(),
    ensures
        conversation(ms.take(i)).len() <= conversation(ms).len(),
    decreases ms.len() - i,
{
    if i < ms.len() {
        lemma_conversation_prefix_len(ms, i + 1);
        assert(ms.take(i + 1).drop_last() =~= ms.take(i));
    } else {
        assert(ms.take(i) =~= ms);
    }
}

/// One content item of a reply, as the API sends it.
#[derive(Debug, Clone)]
pub struct ReplyItem {
    pub content_type: String,
    pub text: Option<String>,
    pub id: Option<String>,
    pub name: Option<String>,
    pub input: Option<serde_json::Value>,
}

/// Token counts of a reply; absent counts read as 0.
#[derive(Debug, Clone, Copy)]
pub struct ReplyUsage {
    pub input_tokens: u32,
    pub output_tokens: u32,
    pub cache_creation_input_tokens: u32,
    pub cache_read_input_tokens: u32,
}

/// A `tool_use` item that lacks its id, name or input.
pub open spec fn malformed(it: ReplyItem) -> bool {
    it.content_type@ == "tool_use"@ && (it.id is None || it.name is None || it.input is None)
}

/// The block an item contributes, if any: non-blank text, and complete tool
/// calls; other item types are skipped.
pub open spec fn item_block(it: ReplyItem) -> Option<BlockView> {
    if it.content_type@ == "text"@ {
        match it.text {
            Some(t) => if trim(t@).len() > 0 {
                Some(BlockView::Text { text: t@ })
            } else {
                None
            },
            None => None,
        }
    } else if it.content_type@ == "tool_use"@ {
        match (it.id, it.name, it.input) {
            (Some(i), Some(n), Some(v)) => Some(BlockView::ToolUse { id: i@, name: n@, input: v }),
            _ => None,
        }
    } else {
        None
    }
}

/// The blocks that the items contribute, in order.
pub open spec fn reply_blocks(items: Seq<ReplyItem>) -> Seq<BlockView>
    decreases items.len(),
{
    if items.len() == 0 {
        seq![]
    } else {
        match item_block(items.last()) {
            Some(b) => reply_blocks(items.drop_last()).push(b),
            None => reply_blocks(items.drop_last()),
        }
    }
}

pub open spec fn usage_of(u: ReplyUsage) -> UsageStats {
    UsageStats {
        input_tokens: u.input_tokens,
        output_tokens: u.output_tokens,
        cache_write_tokens: u.cache_creation_input_tokens,
        cache_read_tokens: u.cache_read_input_tokens,
    }
}

/// Reads a reply. A malformed tool call is an error even when other usable
/// blocks are present, so that a real tool call never silently disappears;
/// a reply with no usable block is an error too.
pub fn parse_reply(items: Vec<ReplyItem>, usage: ReplyUsage) -> (r: Result<GenerateResponse, ModelError>)
    ensures
        (exists|i: int| 0 <= i < items@.len() && malformed(#[trigger] items@[i])) ==> (r matches Err(
            ModelError::InvalidResponse(m),
        ) && m@ == "tool_use content block missing id, name, or input"@),
        !(exists|i: int| 0 <= i < items@.len() && malformed(#[trigger] items@[i])) ==> {
            if reply_blocks(items@).len() == 0 {
                r matches Err(ModelError::InvalidResponse(m)) && m@
                    == "No text or tool_use content in response"@
            } else {
                r matches Ok(resp) && resp.content@.map_values(|b: ContentBlock| b@) == reply_blocks(
                    items@,
                ) && resp.usage == usage_of(usage)
            }
        },
{
    let mut content: Vec<ContentBlock> = Vec::new();
    let mut i: usize = 0;
    proof {
        reveal_strlit("text");
        reveal_strlit("tool_use");
        assert("text"@.len() != "tool_use"@.len());
    }
    while i < items.len()
        invariant
            i <= items@.len(),
            forall|k: int| 0 <= k < i ==> !malformed(#[trigger] items@[k]),
            "text"@ != "tool_use"@,
            content@.map_values(|b: ContentBlock| b@) == reply_blocks(items@.take(i as int)),
        decreases items.len() - i,
    {
        assert(items@.take(i + 1).drop_last() =~= items@.take(i as int));
        assert(items@.take(i + 1).last() == items@[i as int]);
        let it = &items[i];
        let ghost before = content@;
        let text_type = String::from_str("text");
        let tool_type = String::from_str("tool_use");
        if it.content_type == text_type {
            match &it.text {
                Some(t) => {
                    let v = to_chars(t.as_str());
                    assert(v@.subrange(0, v@.len() as int) =~= v@);
                    let (a, z) = trim_range(&v, 0, v.len());
                    if a < z {
                        content.push(ContentBlock::Text { text: t.clone() });
                    }
                },
                None => {},
            }
        } else if it.content_type == tool_type {
            match (&it.id, &it.name, &it.input) {
                (Some(id), Some(name), Some(input)) => {
                    content.push(
                        ContentBlock::ToolUse { id: id.clone(), name: name.clone(), input: input.clone() },
                    );
                },
                _ => {
                    assert(malformed(items@[i as int]));
                    return Err(
                        ModelError::InvalidResponse(
                            String::from_str("tool_use content block missing id, name, or input"),
                        ),
                    );
                },
            }
        }
        assert(content@.map_values(|b: ContentBlock| b@) =~= reply_blocks(items@.take(i + 1)));
        i += 1;
    }
    assert(items@.take(items@.len() as int) =~= items@);
    if content.len() == 0 {
        return Err(ModelError::InvalidResponse(String::from_str("No text or tool_use content in response")));
    }
    Ok(
        GenerateResponse {
            content,
            usage: UsageStats {
                input_tokens: usage.input_tokens,
                output_tokens: usage.output_tokens,
                cache_write_tokens: usage.cache_creation_input_tokens,
                cache_read_tokens: usage.cache_read_input_tokens,
            },
        },
    )
}

} // verus!
