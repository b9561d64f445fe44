//! OpenAI-compatible chat completions: the request (roles, tool calls, tool
//! results, structured output) and the reading of a reply.

use crate::error::{debug_quoted, debug_text, ModelError};
use crate::memory::{BlockView, ContentBlock, Message, MessageRole};
use crate::model::{GenerateRequest, GenerateResponse, ToolDefinition, UsageStats};
use crate::text::{append_str, join_with, push_char, to_chars, trim, trim_range};
use vstd::prelude::*;

verus! {

/// What `serde_json::from_str::<Value>` makes of a text: the document, or
/// the parser's message (`Error`'s `Display`) when the text is not JSON.
pub uninterp spec fn json_parse(s: Seq<char>) -> Result<serde_json::Value, Seq<char>>;

/// The document a text parses to, if it is JSON.
pub open spec fn json_from_text(s: Seq<char>) -> Option<serde_json::Value> {
    match json_parse(s) {
        Ok(v) => Some(v),
        Err(_) => None,
    }
}

/// `serde_json::from_str::<serde_json::Value>`: the parsed document, or the
/// parser's message. Parsing depends on the text alone.
#[verifier::external_body]
fn parse_json(s: &str) -> (r: Result<serde_json::Value, String>)
    ensures
        match r {
            Ok(v) => json_parse(s@) == Ok::<serde_json::Value, Seq<char>>(v),
            Err(e) => json_parse(s@) == Err::<serde_json::Value, Seq<char>>(e@),
        },
{
    match serde_json::from_str::<serde_json::Value>(s) {
        Ok(v) => Ok(v),
        Err(e) => Err(e.to_string()),
    }
}

/// What `format!("{:?}", v)` makes of a JSON document (serde_json's own
/// `Debug`, e.g. `String("a")` or `Object {"k": Number(1)}`).
pub uninterp spec fn json_debug_text(v: serde_json::Value) -> Seq<char>;

/// `<serde_json::Value as Debug>::fmt`, through `format!("{:?}", ..)`.
#[verifier::external_body]
fn debug_json(v: &serde_json::Value) -> (r: String)
    ensures
        r@ == json_debug_text(*v),
{
    format!("{:?}", v)
}

/// How `{:?}` shows a content block (the derived `Debug`).
pub open spec fn block_debug(b: BlockView) -> Seq<char> {
    match b {
        BlockView::Text { text } => "Text { text: "@ + debug_text(text) + " }"@,
        BlockView::ToolUse { id, name, input } => "ToolUse { id: "@ + debug_text(id) + ", name: "@ + debug_text(name)
            + ", input: "@ + json_debug_text(input) + " }"@,
        BlockView::ToolResult { tool_use_id, content, is_error } => "ToolResult { tool_use_id: "@ + debug_text(
            tool_use_id,
        ) + ", content: "@ + debug_text(content) + ", is_error: "@ + (if is_error {
            "true"@
        } else {
            "false"@
        }) + " }"@,
    }
}

fn block_debug_string(b: &ContentBlock) -> (s: String)
    ensures
        s@ == block_debug(b@),
{
    let mut s = String::new();
    match b {
        ContentBlock::Text { text } => {
            append_str(&mut s, "Text { text: ");
            append_str(&mut s, debug_quoted(text.as_str()).as_str());
            append_str(&mut s, " }");
        },
        ContentBlock::ToolUse { id, name, input } => {
            append_str(&mut s, "ToolUse { id: ");
            append_str(&mut s, debug_quoted(id.as_str()).as_str());
            append_str(&mut s, ", name: ");
            append_str(&mut s, debug_quoted(name.as_str()).as_str());
            append_str(&mut s, ", input: ");
            append_str(&mut s, debug_json(input).as_str());
            append_str(&mut s, " }");
        },
        ContentBlock::ToolResult { tool_use_id, content, is_error } => {
            append_str(&mut s, "ToolResult { tool_use_id: ");
            append_str(&mut s, debug_quoted(tool_use_id.as_str()).as_str());
            append_str(&mut s, ", content: ");
            append_str(&mut s, debug_quoted(content.as_str()).as_str());
            append_str(&mut s, ", is_error: ");
            if *is_error {
                append_str(&mut s, "true");
            } else {
                append_str(&mut s, "false");
            }
            append_str(&mut s, " }");
        },
    }
    assert(s@ =~= block_debug(b@));
    s
}

#[derive(Debug, Clone)]
pub struct OpenAICompatible {
    /// When true, the request asks the server's chat template not to think
    /// aloud, which keeps structured output reliable.
    disable_thinking: bool,
}

/// Thinking stays disabled unless the setting is `0`.
pub open spec fn spec_disable_thinking(value: Option<Seq<char>>) -> bool {
    match value {
        Some(v) => v != "0"@,
        None => true,
    }
}

impl OpenAICompatible {
    /// Thinking disabled, as when no `LLAMA_DISABLE_THINKING` value is set.
    pub fn new() -> (p: Self)
        ensures
            p.disables_thinking(),
    {
        OpenAICompatible { disable_thinking: true }
    }

    /// From the value of the `LLAMA_DISABLE_THINKING` setting, if any.
    pub fn from_setting(value: Option<&str>) -> (p: Self)
        ensures
            p.disables_thinking() == spec_disable_thinking(
                match value {
                    Some(v) => Some(v@),
                    None => None,
                },
            ),
    {
        let disable = match value {
            None => true,
            Some(v) => {
                let zero = String::from_str("0");
                let s = String::from_str(v);
                !(s == zero)
            },
        };
        OpenAICompatible { disable_thinking: disable }
    }

    pub closed spec fn disables_thinking(&self) -> bool {
        self.disable_thinking
    }

    pub fn disable_thinking(&self) -> (b: bool)
        ensures
            b == self.disables_thinking(),
    {
        self.disable_thinking
    }

    pub fn name(&self) -> (s: &'static str)
        ensures
            s@ == "openai"@,
    {
        "openai"
    }

    pub fn endpoint_path(&self, _model: &str) -> (s: String)
        ensures
            s@ == "/chat/completions"@,
    {
        String::from_str("/chat/completions")
    }

    /// A bearer-token `Authorization` header, left out when the token cannot
    /// be a header value.
    pub fn request_headers(&self, api_key: &str) -> (h: Vec<(String, String)>)
        ensures
            crate::registry::header_text("Bearer "@ + api_key@) ==> h@.len() == 1 && h@[0].0@
                == "Authorization"@ && h@[0].1@ == "Bearer "@ + api_key@,
            !crate::registry::header_text("Bearer "@ + api_key@) ==> h@.len() == 0,
    {
        let mut value = String::from_str("Bearer ");
        append_str(&mut value, api_key);
        let mut h: Vec<(String, String)> = Vec::new();
        if crate::registry::header_value_ok(value.as_str()) {
            h.push((String::from_str("Authorization"), value));
        }
        h
    }
}

/// A tool call made by the assistant; its input goes out JSON-encoded.
#[derive(Debug, Clone)]
pub struct ChatToolCall {
    pub id: String,
    pub name: String,
    pub input: serde_json::Value,
}

#[derive(Debug, Clone)]
pub struct ChatMessage {
    pub role: String,
    pub content: Option<String>,
    pub tool_calls: Option<Vec<ChatToolCall>>,
    pub tool_call_id: Option<String>,
}

/// A tool offered as a strict function.
#[derive(Debug, Clone)]
pub struct ChatTool {
    pub name: String,
    pub description: String,
    pub parameters: serde_json::Value,
    pub strict: bool,
}

/// The body of a chat-completions request. `disable_thinking` asks the chat
/// template not to think aloud; `response_schema` asks for JSON that the
/// schema describes.
#[derive(Debug, Clone)]
pub struct ChatRequest {
    pub model: String,
    pub messages: Vec<ChatMessage>,
    pub tools: Option<Vec<ChatTool>>,
    pub disable_thinking: bool,
    pub response_schema: Option<serde_json::Value>,
}

pub struct ChatView {
    pub role: Seq<char>,
    pub content: Option<Seq<char>>,
    pub tool_calls: Option<Seq<(Seq<char>, Seq<char>, serde_json::Value)>>,
    pub tool_call_id: Option<Seq<char>>,
}

pub open spec fn opt_view(o: Option<String>) -> Option<Seq<char>> {
    match o {
        Some(s) => Some(s@),
        None => None,
    }
}

pub open spec fn chat_view(m: ChatMessage) -> ChatView {
    ChatView {
        role: m.role@,
        content: opt_view(m.content),
        tool_calls: match m.tool_calls {
            Some(cs) => Some(cs@.map_values(|c: ChatToolCall| (c.id@, c.name@, c.input))),
            None => None,
        },
        tool_call_id: opt_view(m.tool_call_id),
    }
}

/// The texts of the `Text` blocks, in order.
pub open spec fn texts_of(bs: Seq<ContentBlock>) -> Seq<Seq<char>>
    decreases bs.len(),
{
    if bs.len() == 0 {
        seq![]
    } else {
        match bs.last()@ {
            BlockView::Text { text } => texts_of(bs.drop_last()).push(text),
            _ => texts_of(bs.drop_last()),
        }
    }
}

/// The tool calls of the `ToolUse` blocks, in order.
pub open spec fn calls_of(bs: Seq<ContentBlock>) -> Seq<(Seq<char>, Seq<char>, serde_json::Value)>
    decreases bs.len(),
{
    if bs.len() == 0 {
        seq![]
    } else {
        match bs.last()@ {
            BlockView::ToolUse { id, name, input } => calls_of(bs.drop_last()).push((id, name, input)),
            _ => calls_of(bs.drop_last()),
        }
    }
}

pub open spec fn has_result(bs: Seq<ContentBlock>) -> bool {
    exists|i: int| 0 <= i < bs.len() && (#[trigger] bs[i]) is ToolResult
}

/// A user or assistant message on the wire: its texts joined by newlines
/// (none when it only calls tools, empty when it holds nothing) and its tool
/// calls. A tool result in it is refused.
pub open spec fn text_message(role: Seq<char>, bs: Seq<ContentBlock>) -> Option<ChatView> {
    if has_result(bs) {
        None
    } else {
        let texts = texts_of(bs);
        let calls = calls_of(bs);
        Some(
            ChatView {
                role,
                content: if texts.len() == 0 && calls.len() == 0 {
                    Some(Seq::<char>::empty())
                } else if texts.len() == 0 {
                    None
                } else {
                    Some(join_with(texts, seq!['\n']))
                },
                tool_calls: if calls.len() == 0 {
                    None
                } else {
                    Some(calls)
                },
                tool_call_id: None,
            },
        )
    }
}

pub fn build_text_message(role: &str, content: &Vec<ContentBlock>) -> (r: Result<ChatMessage, ModelError>)
    ensures
        match text_message(role@, content@) {
            Some(v) => r matches Ok(m) && chat_view(m) == v,
            None => r matches Err(ModelError::InvalidResponse(e)) && e@ == role@
                + "-role message must not contain a ToolResult block"@,
        },
{
    let mut texts = String::new();
    let mut n_texts: usize = 0;
    let mut calls: Vec<ChatToolCall> = Vec::new();
    let mut i: usize = 0;
    while i < content.len()
        invariant
            i <= content@.len(),
            n_texts <= i,
            n_texts == texts_of(content@.take(i as int)).len(),
            n_texts > 0 ==> texts@ == join_with(texts_of(content@.take(i as int)), seq!['\n']),
            calls@.map_values(|c: ChatToolCall| (c.id@, c.name@, c.input)) == calls_of(content@.take(i as int)),
            !has_result(content@.take(i as int)),
        decreases content.len() - i,
    {
        let ghost prev = content@.take(i as int);
        assert(content@.take(i + 1).drop_last() =~= prev);
        assert(content@.take(i + 1).last() == content@[i as int]);
        match &content[i] {
            ContentBlock::Text { text } => {
                if n_texts > 0 {
                    push_char(&mut texts, '\n');
                    append_str(&mut texts, text.as_str());
                    let ghost ts = texts_of(prev);
                    assert(ts.push(text@).drop_last() =~= ts);
                } else {
                    texts = text.clone();
                    assert(texts_of(prev) =~= Seq::<Seq<char>>::empty());
                }
                n_texts += 1;
            },
            ContentBlock::ToolUse { id, name, input } => {
                let ghost before = calls@;
                calls.push(ChatToolCall { id: id.clone(), name: name.clone(), input: input.clone() });
                assert(calls@.map_values(|c: ChatToolCall| (c.id@, c.name@, c.input)) =~= before.map_values(
                    |c: ChatToolCall| (c.id@, c.name@, c.input),
                ).push((id@, name@, *input)));
            },
            ContentBlock::ToolResult { .. } => {
                assert(content@[i as int] is ToolResult);
                let mut msg = String::from_str(role);
                append_str(&mut msg, "-role message must not contain a ToolResult block");
                assert(msg@ == role@ + "-role message must not contain a ToolResult block"@);
                return Err(ModelError::InvalidResponse(msg));
            },
        }
        assert forall|k: int| 0 <= k < i + 1 implies !(#[trigger] content@.take(i + 1)[k] is ToolResult) by {
            if k < i {
                assert(content@.take(i + 1)[k] == prev[k]);
            }
        }
        i += 1;
    }
    assert(content@.take(content@.len() as int) =~= content@);
    let n_calls = calls.len();
    let text_out = if n_texts == 0 && n_calls == 0 {
        Some(String::new())
    } else if n_texts == 0 {
        None
    } else {
        Some(texts)
    };
    let call_out = if n_calls == 0 {
        None
    } else {
        Some(calls)
    };
    Ok(ChatMessage { role: String::from_str(role), content: text_out, tool_calls: call_out, tool_call_id: None })
}

/// Tool results as tool messages, one per result, each answering its call;
/// an error result's text is marked with `Error: `. Anything but a tool
/// result is refused.
pub open spec fn tool_messages(bs: Seq<ContentBlock>) -> Option<Seq<ChatView>>
    decreases bs.len(),
{
    if bs.len() == 0 {
        Some(seq![])
    } else {
        match (tool_messages(bs.drop_last()), bs.last()@) {
            (Some(prev), BlockView::ToolResult { tool_use_id, content, is_error }) => Some(
                prev.push(
                    ChatView {
                        role: "tool"@,
                        content: Some(
                            if is_error {
                                "Error: "@ + content
                            } else {
                                content
                            },
                        ),
                        tool_calls: None,
                        tool_call_id: Some(tool_use_id),
                    },
                ),
            ),
            _ => None,
        }
    }
}

/// The first block of a tool-role message that is not a tool result.
pub open spec fn tool_refusal(bs: Seq<ContentBlock>) -> Option<BlockView>
    decreases bs.len(),
{
    if bs.len() == 0 {
        None
    } else if tool_messages(bs.drop_last()) is None {
        tool_refusal(bs.drop_last())
    } else if bs.last()@ is ToolResult {
        None
    } else {
        Some(bs.last()@)
    }
}

/// Why a message is refused: the block a tool-role message may not hold, or
/// a tool result in a user or assistant message.
pub open spec fn message_refusal(m: Message) -> Seq<char> {
    match m.role {
        MessageRole::Tool => "Tool-role message must contain only ToolResult blocks, found "@ + block_debug(
            tool_refusal(m.content@)->0,
        ),
        MessageRole::User => "user"@ + "-role message must not contain a ToolResult block"@,
        MessageRole::Assistant => "assistant"@ + "-role message must not contain a ToolResult block"@,
        MessageRole::System => Seq::empty(),
    }
}

/// Why a conversation is refused: the refusal of its first refused message.
pub open spec fn chat_refusal(ms: Seq<Message>) -> Seq<char>
    decreases ms.len(),
{
    if ms.len() == 0 {
        Seq::empty()
    } else if chat_messages(ms.drop_last()) is None {
        chat_refusal(ms.drop_last())
    } else {
        message_refusal(ms.last())
    }
}

/// The chat messages for a conversation, in order, or nothing when one of
/// them holds a block its role may not carry. System messages are skipped
/// (the system prompt travels separately).
pub open spec fn chat_messages(ms: Seq<Message>) -> Option<Seq<ChatView>>
    decreases ms.len(),
{
    if ms.len() == 0 {
        Some(seq![])
    } else {
        match chat_messages(ms.drop_last()) {
            None => None,
            Some(prev) => {
                let m = ms.last();
                match m.role {
                    MessageRole::System => Some(prev),
                    MessageRole::Tool => match tool_messages(m.content@) {
                        Some(t) => Some(prev + t),
                        None => None,
                    },
                    MessageRole::User => match text_message("user"@, m.content@) {
                        Some(v) => Some(prev.push(v)),
                        None => None,
                    },
                    MessageRole::Assistant => match text_message("assistant"@, m.content@) {
                        Some(v) => Some(prev.push(v)),
                        None => None,
                    },
                }
            },
        }
    }
}

/// The system prompt, when there is one, as a leading system message.
pub open spec fn system_message(system: Option<String>) -> Seq<ChatView> {
    match system {
        Some(s) => seq![
            ChatView { role: "system"@, content: Some(s@), tool_calls: None, tool_call_id: None },
        ],
        None => seq![],
    }
}

fn push_tool_results(out: &mut Vec<ChatMessage>, bs: &Vec<ContentBlock>) -> (r: Result<(), String>)
    ensures
        match tool_messages(bs@) {
            Some(t) => r is Ok && final(out)@.map_values(|m: ChatMessage| chat_view(m)) == old(
                out,
            )@.map_values(|m: ChatMessage| chat_view(m)) + t,
            None => r matches Err(e) && e@ == "Tool-role message must contain only ToolResult blocks, found "@
                + block_debug(tool_refusal(bs@)->0),
        },
{
    let ghost start = out@.map_values(|m: ChatMessage| chat_view(m));
    let mut j: usize = 0;
    assert(bs@.take(0) =~= Seq::<ContentBlock>::empty());
    assert(start + Seq::<ChatView>::empty() =~= start);
    while j < bs.len()
        invariant
            j <= bs@.len(),
            start == old(out)@.map_values(|m: ChatMessage| chat_view(m)),
            tool_messages(bs@.take(j as int)) matches Some(t) && out@.map_values(
                |m: ChatMessage| chat_view(m),
            ) == start + t,
        decreases bs.len() - j,
    {
        let ghost prev = bs@.take(j as int);
        assert(bs@.take(j + 1).drop_last() =~= prev);
        assert(bs@.take(j + 1).last() == bs@[j as int]);
        match &bs[j] {
            ContentBlock::ToolResult { tool_use_id, content, is_error } => {
                let text = if *is_error {
                    let mut t = String::from_str("Error: ");
                    append_str(&mut t, content.as_str());
                    t
                } else {
                    content.clone()
                };
                let ghost before = out@.map_values(|m: ChatMessage| chat_view(m));
                let msg = ChatMessage {
                    role: String::from_str("tool"),
                    content: Some(text),
                    tool_calls: None,
                    tool_call_id: Some(tool_use_id.clone()),
                };
                out.push(msg);
                assert(out@.map_values(|m: ChatMessage| chat_view(m)) =~= before.push(chat_view(msg)));
                let ghost t = tool_messages(prev)->0;
                assert(start + t.push(chat_view(msg)) =~= (start + t).push(chat_view(msg)));
            },
            _ => {
                proof {
                    assert(tool_refusal(bs@.take(j + 1)) == Some(bs@[j as int]@));
                    lemma_tool_messages_prefix_none(bs@, j as int + 1);
                }
                let mut e = String::from_str("Tool-role message must contain only ToolResult blocks, found ");
                append_str(&mut e, block_debug_string(&bs[j]).as_str());
                return Err(e);
            },
        }
        j += 1;
    }
    assert(bs@.take(bs@.len() as int) =~= bs@);
    Ok(())
}

/// Once a prefix of the blocks is refused, the whole list is.
proof fn lemma_tool_messages_prefix_none(bs: Seq<ContentBlock>, k: int)
    requires
        0 <= k <= bs.len(),
        tool_messages(bs.take(k)) is None,
    ensures
        tool_messages(bs) is None,
        tool_refusal(bs) == tool_refusal(bs.take(k)),
    decreases bs.len() - k,
{
    if k < bs.len() {
        assert(bs.take(k + 1).drop_last() =~= bs.take(k));
        lemma_tool_messages_prefix_none(bs, k + 1);
    } else {
        assert(bs.take(k) =~= bs);
    }
}

/// Once a prefix of the messages is refused, the whole list is.
proof fn lemma_chat_messages_prefix_none(ms: Seq<Message>, k: int)
    requires
        0 <= k <= ms.len(),
        chat_messages(ms.take(k)) is None,
    ensures
        chat_messages(ms) is None,
        chat_refusal(ms) == chat_refusal(ms.take(k)),
    decreases ms.len() - k,
{
    if k < ms.len() {
        assert(ms.take(k + 1).drop_last() =~= ms.take(k));
        lemma_chat_messages_prefix_none(ms, k + 1);
    } else {
        assert(ms.take(k) =~= ms);
    }
}

pub open spec fn chat_tools_of(ct: Seq<ChatTool>, ts: Seq<ToolDefinition>) -> bool {
    &&& ct.len() == ts.len()
    &&& forall|i: int|
        #![trigger ct[i]]
        0 <= i < ts.len() ==> ct[i].name@ == ts[i].name@ && ct[i].description@ == ts[i].description@
            && ct[i].parameters == ts[i].parameters && ct[i].strict
}

fn chat_tools(ts: &Vec<ToolDefinition>) -> (ct: Vec<ChatTool>)
    ensures
        chat_tools_of(ct@, ts@),
{
    let mut ct: Vec<ChatTool> = Vec::new();
    let mut i: usize = 0;
    while i < ts.len()
        invariant
            i <= ts@.len(),
            ct@.len() == i,
            forall|k: int|
                #![trigger ct@[k]]
                0 <= k < i ==> ct@[k].name@ == ts@[k].name@ && ct@[k].description@ == ts@[k].description@
                    && ct@[k].parameters == ts@[k].parameters && ct@[k].strict,
        decreases ts.len() - i,
    {
        let d = &ts[i];
        ct.push(
            ChatTool {
                name: d.name.clone(),
                description: d.description.clone(),
                parameters: d.parameters.clone(),
                strict: true,
            },
        );
        i += 1;
    }
    ct
}

impl OpenAICompatible {
    /// The chat-completions request for `request`: the system prompt first,
    /// then the conversation, tools as strict functions, the thinking switch
    /// and the output schema. Refused when a message holds a block its role
    /// may not carry.
    pub fn build_request(&self, model: &str, request: GenerateRequest) -> (r: Result<ChatRequest, ModelError>)
        ensures
            match chat_messages(request.messages@) {
                Some(cm) => r matches Ok(c) && c.model@ == model@ && c.messages@.map_values(
                    |m: ChatMessage| chat_view(m),
                ) == system_message(request.system) + cm && c.disable_thinking
                    == self.disables_thinking() && c.response_schema == request.response_format
                    && match request.tools {
                    Some(ts) => c.tools matches Some(ct) && chat_tools_of(ct@, ts@),
                    None => c.tools is None,
                },
                None => r matches Err(ModelError::InvalidResponse(e)) && e@ == chat_refusal(request.messages@),
            },
    {
        let mut out: Vec<ChatMessage> = Vec::new();
        match &request.system {
            Some(s) => {
                out.push(
                    ChatMessage {
                        role: String::from_str("system"),
                        content: Some(s.clone()),
                        tool_calls: None,
                        tool_call_id: None,
                    },
                );
            },
            None => {},
        }
        let ghost sys = system_message(request.system);
        assert(out@.map_values(|m: ChatMessage| chat_view(m)) =~= sys);
        let ms = &request.messages;
        let mut i: usize = 0;
        assert(ms@.take(0) =~= Seq::<Message>::empty());
        assert(sys + Seq::<ChatView>::empty() =~= sys);
        while i < ms.len()
            invariant
                i <= ms@.len(),
                ms@ == request.messages@,
                sys == system_message(request.system),
                chat_messages(ms@.take(i as int)) matches Some(cm) && out@.map_values(
                    |m: ChatMessage| chat_view(m),
                ) == sys + cm,
            decreases ms.len() - i,
        {
            let ghost prev = ms@.take(i as int);
            let ghost cm = chat_messages(prev)->0;
            assert(ms@.take(i + 1).drop_last() =~= prev);
            assert(ms@.take(i + 1).last() == ms@[i as int]);
            let m = &ms[i];
            match m.role {
                MessageRole::System => {},
                MessageRole::Tool => {
                    match push_tool_results(&mut out, &m.content) {
                        Ok(()) => {},
                        Err(e) => {
                            proof {
                                assert(tool_messages(m.content@) is None);
                                assert(chat_messages(ms@.take(i + 1)) is None);
                                assert(chat_refusal(ms@.take(i + 1)) == message_refusal(ms@[i as int]));
                                lemma_chat_messages_prefix_none(ms@, i + 1);
                            }
                            return Err(ModelError::InvalidResponse(e));
                        },
                    }
                    let ghost t = tool_messages(m.content@)->0;
                    assert(sys + cm + t =~= sys + (cm + t));
                },
                _ => {
                    let role = if m.role == MessageRole::User {
                        "user"
                    } else {
                        "assistant"
                    };
                    match build_text_message(role, &m.content) {
                        Ok(cmsg) => {
                            let ghost before = out@.map_values(|x: ChatMessage| chat_view(x));
                            out.push(cmsg);
                            assert(out@.map_values(|x: ChatMessage| chat_view(x)) =~= before.push(
                                chat_view(cmsg),
                            ));
                            assert((sys + cm).push(chat_view(cmsg)) =~= sys + cm.push(chat_view(cmsg)));
                        },
                        Err(e) => {
                            proof {
                                assert(chat_refusal(ms@.take(i + 1)) == message_refusal(ms@[i as int]));
                                lemma_chat_messages_prefix_none(ms@, i + 1);
                            }
                            return Err(e);
                        },
                    }
                },
            }
            i += 1;
        }
        assert(ms@.take(ms@.len() as int) =~= ms@);
        let tools = match &request.tools {
            Some(ts) => Some(chat_tools(ts)),
            None => None,
        };
        Ok(
            ChatRequest {
                model: String::from_str(model),
                messages: out,
                tools,
                disable_thinking: self.disable_thinking,
                response_schema: request.response_format,
            },
        )
    }
}

/// A tool call in a reply; `arguments` is JSON text.
#[derive(Debug, Clone)]
pub struct ReplyToolCall {
    pub id: String,
    pub name: String,
    pub arguments: String,
}

/// The first choice's message of a reply.
#[derive(Debug, Clone)]
pub struct ReplyMessage {
    pub content: Option<String>,
    pub tool_calls: Vec<ReplyToolCall>,
}

/// Token counts of a reply; absent counts read as 0.
#[derive(Debug, Clone, Copy)]
pub struct ReplyUsage {
    pub prompt_tokens: u32,
    pub completion_tokens: u32,
    pub cached_tokens: u32,
}

/// Every tool call's arguments are JSON.
/// The parser's message for the first tool call whose arguments are not JSON.
pub open spec fn arguments_error(calls: Seq<ReplyToolCall>) -> Option<Seq<char>>
    decreases calls.len(),
{
    if calls.len() == 0 {
        None
    } else {
        match json_parse(calls[0].arguments@) {
            Err(e) => Some(e),
            Ok(_) => arguments_error(calls.drop_first()),
        }
    }
}

/// The blocks of a reply message: its text unless blank (some servers send
/// an empty text beside tool calls), then its tool calls with their parsed
/// arguments.
pub open spec fn reply_blocks(m: ReplyMessage) -> Seq<BlockView> {
    let text: Seq<BlockView> = match m.content {
        Some(t) => if trim(t@).len() > 0 {
            seq![BlockView::Text { text: t@ }]
        } else {
            seq![]
        },
        None => seq![],
    };
    text + m.tool_calls@.map_values(
        |c: ReplyToolCall|
            BlockView::ToolUse { id: c.id@, name: c.name@, input: json_from_text(c.arguments@)->0 },
    )
}

/// Reads the first choice's message of a reply (`None` when there was no
/// choice). Refused when there is no choice, when a tool call's arguments
/// are not JSON, or when nothing usable is left.
pub fn parse_reply(message: Option<ReplyMessage>, usage: ReplyUsage) -> (r: Result<GenerateResponse, ModelError>)
    ensures
        match message {
            None => r matches Err(ModelError::InvalidResponse(m)) && m@ == "No content in response"@,
            Some(m) => if let Some(err) = arguments_error(m.tool_calls@) {
                r matches Err(ModelError::InvalidResponse(e)) && e@ == "invalid tool_call arguments JSON: "@ + err
            } else if reply_blocks(m).len() == 0 {
                r matches Err(ModelError::InvalidResponse(e)) && e@ == "No content in response"@
            } else {
                r matches Ok(resp) && resp.content@.map_values(|b: ContentBlock| b@) == reply_blocks(m)
                    && resp.usage == (UsageStats {
                    input_tokens: usage.prompt_tokens,
                    output_tokens: usage.completion_tokens,
                    cache_write_tokens: 0,
                    cache_read_tokens: usage.cached_tokens,
                })
            },
        },
{
    let m = match message {
        Some(m) => m,
        None => {
            return Err(ModelError::InvalidResponse(String::from_str("No content in response")));
        },
    };
    let ghost mm = m;
    let mut content: Vec<ContentBlock> = Vec::new();
    match &m.content {
        Some(t) => {
            let v = to_chars(t.as_str());
            assert(v@.subrange(0, v@.len() as int) =~= v@);
            let (a, z) = trim_range(&v, 0, v.len());
            if a < z {
                content.push(ContentBlock::Text { text: t.clone() });
            }
        },
        None => {},
    }
    let ghost head = content@.map_values(|b: ContentBlock| b@);
    let calls = &m.tool_calls;
    let ghost tail = calls@.map_values(
        |c: ReplyToolCall|
            BlockView::ToolUse { id: c.id@, name: c.name@, input: json_from_text(c.arguments@)->0 },
    );
    let mut i: usize = 0;
    assert(calls@.skip(0) =~= calls@);
    while i < calls.len()
        invariant
            i <= calls@.len(),
            message == Some(mm),
            calls@ == mm.tool_calls@,
            tail == calls@.map_values(
                |c: ReplyToolCall|
                    BlockView::ToolUse { id: c.id@, name: c.name@, input: json_from_text(c.arguments@)->0 },
            ),
            forall|k: int| 0 <= k < i ==> (json_from_text((#[trigger] calls@[k]).arguments@) is Some),
            arguments_error(calls@) == arguments_error(calls@.skip(i as int)),
            content@.map_values(|b: ContentBlock| b@) == head + tail.take(i as int),
        decreases calls.len() - i,
    {
        let c = &calls[i];
        assert(calls@.skip(i as int)[0] == calls@[i as int]);
        assert(calls@.skip(i as int).drop_first() =~= calls@.skip(i + 1));
        match parse_json(c.arguments.as_str()) {
            Ok(input) => {
                let ghost before = content@.map_values(|b: ContentBlock| b@);
                content.push(ContentBlock::ToolUse { id: c.id.clone(), name: c.name.clone(), input });
                assert(content@.map_values(|b: ContentBlock| b@) =~= before.push(tail[i as int]));
                assert(tail.take(i + 1) =~= tail.take(i as int).push(tail[i as int]));
                assert(head + tail.take(i + 1) =~= (head + tail.take(i as int)).push(tail[i as int]));
            },
            Err(e) => {
                assert(arguments_error(mm.tool_calls@) == Some(e@));
                let mut msg = String::from_str("invalid tool_call arguments JSON: ");
                append_str(&mut msg, e.as_str());
                return Err(ModelError::InvalidResponse(msg));
            },
        }
        i += 1;
    }
    assert(tail.take(calls@.len() as int) =~= tail);
    assert(calls@.skip(calls@.len() as int) =~= Seq::<ReplyToolCall>::empty());
    if content.len() == 0 {
        return Err(ModelError::InvalidResponse(String::from_str("No content in response")));
    }
    Ok(
        GenerateResponse {
            content,
            usage: UsageStats {
                input_tokens: usage.prompt_tokens,
                output_tokens: usage.completion_tokens,
                cache_write_tokens: 0,
                cache_read_tokens: usage.cached_tokens,
            },
        },
    )
}

} // verus!
