//! Gemini `generateContent`: the request (system instruction, text contents,
//! function declarations) and the reading of a reply.

use crate::error::ModelError;
use crate::memory::{conversation, spec_content_as_text, ContentBlock, Message, MessageRole};
use crate::model::{GenerateRequest, GenerateResponse, ToolDefinition, UsageStats};
use crate::text::append_str;
use vstd::prelude::*;

verus! {

#[derive(Debug, Clone)]
pub struct GeminiProvider;

/// One turn of a Gemini conversation: its role and its text parts.
#[derive(Debug, Clone)]
pub struct GeminiContent {
    pub role: String,
    pub parts: Vec<String>,
}

/// A function offered to the model.
#[derive(Debug, Clone)]
pub struct GeminiFunction {
    pub name: String,
    pub description: String,
    pub parameters: serde_json::Value,
}

/// A tool entry: the functions it declares.
#[derive(Debug, Clone)]
pub struct GeminiToolConfig {
    pub functions: Vec<GeminiFunction>,
}

/// The body of a `generateContent` request.
#[derive(Debug, Clone)]
pub struct GeminiRequest {
    pub system_instruction: Option<String>,
    pub contents: Vec<GeminiContent>,
    pub tools: Option<Vec<GeminiToolConfig>>,
}

/// The Gemini role of a conversation role: the assistant is `model`, tool
/// results travel as `user`.
pub open spec fn gemini_role(r: MessageRole) -> Seq<char> {
    match r {
        MessageRole::Assistant => "model"@,
        _ => "user"@,
    }
}

/// Each non-system message, in order, as one text part under its role.
pub open spec fn contents_of(cs: Seq<GeminiContent>, ms: Seq<Message>) -> bool {
    let conv = conversation(ms);
    &&& cs.len() == conv.len()
    &&& forall|i: int|
        #![trigger cs[i]]
        0 <= i < cs.len() ==> cs[i].role@ == gemini_role(conv[i].role) && cs[i].parts@.len() == 1
            && cs[i].parts@[0]@ == spec_content_as_text(conv[i].content@)
}

/// All tools as functions of a single tool entry, in order.
pub open spec fn functions_of(fs: Seq<GeminiFunction>, ts: Seq<ToolDefinition>) -> bool {
    &&& fs.len() == ts.len()
    &&& forall|i: int|
        #![trigger fs[i]]
        0 <= i < ts.len() ==> fs[i].name@ == ts[i].name@ && fs[i].description@ == ts[i].description@
            && fs[i].parameters == ts[i].parameters
}

fn role_text(r: MessageRole) -> (s: String)
    requires
        r != MessageRole::System,
    ensures
        s@ == gemini_role(r),
{
    match r {
        MessageRole::Assistant => String::from_str("model"),
        _ => String::from_str("user"),
    }
}

proof fn lemma_conversation_step(ms: Seq<Message>, i: int)
    requires
        0 <= i < ms.len(),
    ensures
        conversation(ms.take(i + 1)) == if ms[i].role == MessageRole::System {
            conversation(ms.take(i))
        } else {
            conversation(ms.take(i)).push(ms[i])
        },
{
    assert(ms.take(i + 1).drop_last() =~= ms.take(i));
    assert(ms.take(i + 1).last() == ms[i]);
}

impl GeminiProvider {
    pub fn new() -> Self {
        GeminiProvider
    }

    pub fn name(&self) -> (s: &'static str)
        ensures
            s@ == "gemini"@,
    {
        "gemini"
    }

    /// `/v1beta/models/{model}:generateContent`.
    pub fn endpoint_path(&self, model: &str) -> (s: String)
        ensures
            s@ == "/v1beta/models/"@ + model@ + ":generateContent"@,
    {
        let mut s = String::from_str("/v1beta/models/");
        append_str(&mut s, model);
        append_str(&mut s, ":generateContent");
        s
    }

    /// No headers: the key travels as the `key` query parameter.
    pub fn request_headers(&self, _api_key: &str) -> (h: Vec<(String, String)>)
        ensures
            h@.len() == 0,
    {
        Vec::new()
    }

    /// The `generateContent` body for `request`: the system prompt as the
    /// system instruction, every non-system message flattened to text, and
    /// the tools as one entry of function declarations.
    pub fn build_request(&self, _model: &str, request: GenerateRequest) -> (r: GeminiRequest)
        ensures
            match request.system {
                Some(s) => r.system_instruction matches Some(t) && t@ == s@,
                None => r.system_instruction is None,
            },
            contents_of(r.contents@, request.messages@),
            match request.tools {
                Some(ts) => r.tools matches Some(tc) && tc@.len() == 1 && functions_of(
                    tc@[0].functions@,
                    ts@,
                ),
                None => r.tools is None,
            },
    {
        let ms = &request.messages;
        let mut contents: Vec<GeminiContent> = Vec::new();
        let mut i: usize = 0;
        assert(ms@.take(0) =~= Seq::<Message>::empty());
        while i < ms.len()
            invariant
                i <= ms@.len(),
                contents_of(contents@, ms@.take(i as int)),
            decreases ms.len() - i,
        {
            proof {
                lemma_conversation_step(ms@, i as int);
            }
            let m = &ms[i];
            if m.role != MessageRole::System {
                let text = m.as_text();
                let role = role_text(m.role);
                let ghost before = contents@;
                contents.push(GeminiContent { role, parts: vec![text] });
                let ghost conv = conversation(ms@.take(i + 1));
                assert forall|k: int| 0 <= k < contents@.len() implies #[trigger] contents@[k].role@
                    == gemini_role(conv[k].role) && contents@[k].parts@.len() == 1
                    && contents@[k].parts@[0]@ == spec_content_as_text(conv[k].content@) by {
                    if k < before.len() {
                        assert(contents@[k] == before[k]);
                    }
                }
            }
            i += 1;
        }
        assert(ms@.take(ms@.len() as int) =~= ms@);
        let tools = match &request.tools {
            Some(ts) => {
                let mut fs: Vec<GeminiFunction> = Vec::new();
                let mut j: usize = 0;
                while j < ts.len()
                    invariant
                        j <= ts@.len(),
                        fs@.len() == j,
                        forall|k: int|
                            #![trigger fs@[k]]
                            0 <= k < j ==> fs@[k].name@ == ts@[k].name@ && fs@[k].description@
                                == ts@[k].description@ && fs@[k].parameters == ts@[k].parameters,
                    decreases ts.len() - j,
                {
                    let t = &ts[j];
                    fs.push(
                        GeminiFunction {
                            name: t.name.clone(),
                            description: t.description.clone(),
                            parameters: t.parameters.clone(),
                        },
                    );
                    j += 1;
                }
                Some(vec![GeminiToolConfig { functions: fs }])
            },
            None => None,
        };
        let system_instruction = match &request.system {
            Some(s) => Some(s.clone()),
            None => None,
        };
        GeminiRequest { system_instruction, contents, tools }
    }
}

/// The text that a reply carries: the first part of the first candidate.
pub open spec fn first_text(candidates: Seq<GeminiContent>) -> Option<Seq<char>> {
    if candidates.len() > 0 && candidates[0].parts@.len() > 0 {
        Some(candidates[0].parts@[0]@)
    } else {
        None
    }
}

impl GeminiProvider {
    /// Reads the candidates of a reply: one text block with the first part
    /// of the first candidate, and zero usage (context caching is a separate
    /// API). Refused when there is no such part.
    pub fn parse_reply(&self, candidates: Vec<GeminiContent>) -> (r: Result<GenerateResponse, ModelError>)
        ensures
            match first_text(candidates@) {
                Some(t) => r matches Ok(resp) && resp.content@.len() == 1
                    && (resp.content@[0] matches ContentBlock::Text { text } && text@ == t)
                    && resp.usage == (UsageStats {
                    input_tokens: 0,
                    output_tokens: 0,
                    cache_write_tokens: 0,
                    cache_read_tokens: 0,
                }),
                None => r matches Err(ModelError::InvalidResponse(e)) && e@ == "No content in response"@,
            },
    {
        if candidates.len() > 0 && candidates[0].parts.len() > 0 {
            let text = candidates[0].parts[0].clone();
            Ok(
                GenerateResponse {
                    content: vec![ContentBlock::Text { text }],
                    usage: UsageStats { input_tokens: 0, output_tokens: 0, cache_write_tokens: 0, cache_read_tokens: 0 },
                },
            )
        } else {
            Err(ModelError::InvalidResponse(String::from_str("No content in response")))
        }
    }
}

} // verus!
