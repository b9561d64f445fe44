//! Conversation messages and their content blocks.

use crate::text::{append_str, join_with, push_char};
use vstd::prelude::*;

verus! {

/// A single piece of message content: text, a tool call, or a tool result.
#[derive(Debug, Clone, PartialEq)]
pub enum ContentBlock {
    /// Plain text content.
    Text { text: String },
    /// A tool call issued by the model; `id` is echoed back as the
    /// `tool_use_id` of the matching result.
    ToolUse { id: String, name: String, input: serde_json::Value },
    /// Result of executing a tool call, pre-serialized as text.
    ToolResult { tool_use_id: String, content: String, is_error: bool },
}

/// A content block with its text as character sequences.
pub enum BlockView {
    Text { text: Seq<char> },
    ToolUse { id: Seq<char>, name: Seq<char>, input: serde_json::Value },
    ToolResult { tool_use_id: Seq<char>, content: Seq<char>, is_error: bool },
}

impl View for ContentBlock {
    type V = BlockView;

    open spec fn view(&self) -> BlockView {
        match self {
            ContentBlock::Text { text } => BlockView::Text { text: text@ },
            ContentBlock::ToolUse { id, name, input } => BlockView::ToolUse {
                id: id@,
                name: name@,
                input: *input,
            },
            ContentBlock::ToolResult { tool_use_id, content, is_error } => BlockView::ToolResult {
                tool_use_id: tool_use_id@,
                content: content@,
                is_error: *is_error,
            },
        }
    }
}

#[derive(Debug, Clone, Copy, PartialEq, Eq, Structural)]
pub enum MessageRole {
    System,
    User,
    Assistant,
    Tool,
}

#[derive(Debug, Clone, PartialEq)]
pub struct Message {
    pub role: MessageRole,
    pub content: Vec<ContentBlock>,
}

#[derive(Debug)]
pub enum MemoryError {
    Summarization(String),
    Storage(String),
    Retrieval(String),
    Embedding(String),
}

/// How one block reads as plain text: text verbatim, tool calls and results
/// as a short bracketed summary.
pub open spec fn block_text(b: ContentBlock) -> Seq<char> {
    match b {
        ContentBlock::Text { text } => text@,
        ContentBlock::ToolUse { name, .. } => "[tool_use: "@ + name@ + "]"@,
        ContentBlock::ToolResult { tool_use_id, content, .. } => "[tool_result "@ + tool_use_id@
            + ": "@ + content@ + "]"@,
    }
}

/// Blocks flattened to text, one block per line.
pub open spec fn spec_content_as_text(bs: Seq<ContentBlock>) -> Seq<char> {
    join_with(bs.map_values(|b: ContentBlock| block_text(b)), seq!['\n'])
}

fn append_block(s: &mut String, b: &ContentBlock)
    ensures
        final(s)@ == old(s)@ + block_text(*b),
{
    match b {
        ContentBlock::Text { text } => {
            append_str(s, text.as_str());
        },
        ContentBlock::ToolUse { name, .. } => {
            append_str(s, "[tool_use: ");
            append_str(s, name.as_str());
            append_str(s, "]");
            assert(final(s)@ =~= old(s)@ + ("[tool_use: "@ + name@ + "]"@));
        },
        ContentBlock::ToolResult { tool_use_id, content, .. } => {
            append_str(s, "[tool_result ");
            append_str(s, tool_use_id.as_str());
            append_str(s, ": ");
            append_str(s, content.as_str());
            append_str(s, "]");
            assert(final(s)@ =~= old(s)@ + ("[tool_result "@ + tool_use_id@ + ": "@ + content@
                + "]"@));
        },
    }
}

/// Flattens content blocks into plain text: `Text` blocks verbatim, `ToolUse`/
/// `ToolResult` blocks as a short human-readable summary, joined by newlines.
pub fn content_as_text(content: &[ContentBlock]) -> (s: String)
    ensures
        s@ == spec_content_as_text(content@),
{
    let mut s = String::new();
    let mut i: usize = 0;
    let ghost texts = content@.map_values(|b: ContentBlock| block_text(b));
    while i < content.len()
        invariant
            0 <= i <= content@.len(),
            texts == content@.map_values(|b: ContentBlock| block_text(b)),
            s@ == join_with(texts.take(i as int), seq!['\n']),
        decreases content.len() - i,
    {
        let ghost before = s@;
        if i > 0 {
            push_char(&mut s, '\n');
        }
        append_block(&mut s, &content[i]);
        assert(texts.take(i + 1).drop_last() =~= texts.take(i as int));
        assert(texts[i as int] == block_text(content@[i as int]));
        if i == 0 {
            assert(s@ =~= join_with(texts.take(1), seq!['\n']));
        }
        i += 1;
    }
    assert(texts.take(content@.len() as int) =~= texts);
    s
}

impl Message {
    /// A plain-text message: one `Text` block.
    pub fn text(role: MessageRole, text: &str) -> (m: Message)
        ensures
            m.role == role,
            m.content@.len() == 1,
            m.content@[0] matches ContentBlock::Text { text: t } && t@ == text@,
    {
        let t = String::from_str(text);
        Message { role, content: vec![ContentBlock::Text { text: t }] }
    }

    /// This message's content flattened to plain text.
    pub fn as_text(&self) -> (s: String)
        ensures
            s@ == spec_content_as_text(self.content@),
    {
        content_as_text(self.content.as_slice())
    }
}

pub open spec fn is_system(m: Message) -> bool {
    m.role == MessageRole::System
}

/// The messages that are not system messages, in order.
pub open spec fn conversation(ms: Seq<Message>) -> Seq<Message>
    decreases ms.len(),
{
    if ms.len() == 0 {
        seq![]
    } else if is_system(ms.last()) {
        conversation(ms.drop_last())
    } else {
        conversation(ms.drop_last()).push(ms.last())
    }
}


/// A message as its role and the views of its blocks.
pub open spec fn message_view(m: Message) -> (MessageRole, Seq<BlockView>) {
    (m.role, m.content@.map_values(|b: ContentBlock| b@))
}

pub open spec fn message_views(ms: Seq<Message>) -> Seq<(MessageRole, Seq<BlockView>)> {
    ms.map_values(|m: Message| message_view(m))
}

fn copy_block(b: &ContentBlock) -> (c: ContentBlock)
    ensures
        c@ == b@,
{
    match b {
        ContentBlock::Text { text } => ContentBlock::Text { text: text.clone() },
        ContentBlock::ToolUse { id, name, input } => ContentBlock::ToolUse {
            id: id.clone(),
            name: name.clone(),
            input: input.clone(),
        },
        ContentBlock::ToolResult { tool_use_id, content, is_error } => ContentBlock::ToolResult {
            tool_use_id: tool_use_id.clone(),
            content: content.clone(),
            is_error: *is_error,
        },
    }
}

impl Message {
    /// A copy with the same role and the same blocks.
    pub fn copy(&self) -> (m: Message)
        ensures
            message_view(m) == message_view(*self),
    {
        let mut content: Vec<ContentBlock> = Vec::new();
        let mut i: usize = 0;
        while i < self.content.len()
            invariant
                i <= self.content@.len(),
                content@.map_values(|b: ContentBlock| b@) == self.content@.map_values(|b: ContentBlock| b@).take(
                    i as int,
                ),
            decreases self.content.len() - i,
        {
            let c = copy_block(&self.content[i]);
            let ghost before = content@.map_values(|b: ContentBlock| b@);
            content.push(c);
            assert(content@.map_values(|b: ContentBlock| b@) =~= before.push(c@));
            assert(self.content@.map_values(|b: ContentBlock| b@).take(i + 1) =~= self.content@.map_values(
                |b: ContentBlock| b@,
            ).take(i as int).push(self.content@[i as int]@));
            i += 1;
        }
        assert(self.content@.map_values(|b: ContentBlock| b@).take(self.content@.len() as int)
            =~= self.content@.map_values(|b: ContentBlock| b@));
        Message { role: self.role, content }
    }
}

/// The last `k` of `s`, or all of it when it is shorter.
pub open spec fn last_k<A>(s: Seq<A>, k: int) -> Seq<A> {
    if s.len() > k {
        s.skip(s.len() - k)
    } else {
        s
    }
}

/// A bounded buffer of the most recent messages.
pub struct ShortTermMemory {
    messages: Vec<Message>,
    max_messages: usize,
}

impl ShortTermMemory {
    #[verifier::type_invariant]
    closed spec fn within_bound(self) -> bool {
        self.messages@.len() <= self.max_messages
    }

    /// The messages held, oldest first.
    pub closed spec fn held(self) -> Seq<(MessageRole, Seq<BlockView>)> {
        message_views(self.messages@)
    }

    pub closed spec fn capacity(self) -> nat {
        self.max_messages as nat
    }

    /// An empty buffer that keeps at most `max_messages` messages.
    pub fn new(max_messages: usize) -> (m: Self)
        ensures
            m.held().len() == 0,
            m.capacity() == max_messages,
    {
        ShortTermMemory { messages: Vec::new(), max_messages }
    }

    /// Adds a message, dropping the oldest ones beyond the capacity.
    pub fn append(&mut self, message: Message)
        ensures
            final(self).held() == last_k(old(self).held().push(message_view(message)), old(self).capacity() as int),
            final(self).capacity() == old(self).capacity(),
    {
        proof {
            use_type_invariant(&*self);
        }
        let ghost before = message_views(self.messages@);
        let ghost m = message_view(message);
        let mut msgs: Vec<Message> = Vec::new();
        std::mem::swap(&mut msgs, &mut self.messages);
        msgs.push(message);
        assert(message_views(msgs@) =~= before.push(m));
        if msgs.len() > self.max_messages {
            let ghost pushed = msgs@;
            msgs.remove(0);
            assert(message_views(msgs@) =~= before.push(m).skip(1));
        }
        self.messages = msgs;
    }

    /// The last `n` messages, oldest first (all of them when fewer are held).
    pub fn last_n(&self, n: usize) -> (r: Vec<Message>)
        ensures
            message_views(r@) == last_k(self.held(), n as int),
    {
        let len = self.messages.len();
        let start = if len > n {
            len - n
        } else {
            0
        };
        let ghost all = message_views(self.messages@);
        let mut r: Vec<Message> = Vec::new();
        let mut i = start;
        while i < len
            invariant
                start <= i <= len,
                len == self.messages@.len(),
                all == message_views(self.messages@),
                message_views(r@) == all.subrange(start as int, i as int),
            decreases len - i,
        {
            let c = self.messages[i].copy();
            let ghost before = message_views(r@);
            r.push(c);
            assert(message_views(r@) =~= before.push(message_view(c)));
            assert(all.subrange(start as int, i + 1) =~= all.subrange(start as int, i as int).push(all[i as int]));
            i += 1;
        }
        assert(all.subrange(start as int, len as int) =~= last_k(all, n as int));
        r
    }

    /// Drops every message held.
    pub fn clear(&mut self)
        ensures
            final(self).held().len() == 0,
            final(self).capacity() == old(self).capacity(),
    {
        self.messages = Vec::new();
    }
}

} // verus!
