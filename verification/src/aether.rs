//! The Aether orchestrator protocol: envelopes, suspend payloads, approval
//! decisions as aether relays them, registry addresses, and the bodies of
//! the HTTP routes.

use crate::text::{append_str, to_chars, string_from_range};
use std::collections::HashMap;
use vstd::prelude::*;

verus! {

/// What `<serde_json::Value as Display>` writes for a document: its compact
/// JSON text.
pub uninterp spec fn json_text(v: serde_json::Value) -> Seq<char>;

/// `Value::to_string`: the compact JSON text of the document.
#[verifier::external_body]
pub(crate) fn value_text(v: &serde_json::Value) -> (s: String)
    ensures
        s@ == json_text(*v),
{
    v.to_string()
}

/// Why a run was suspended for a human.
#[derive(Debug, Clone)]
pub enum InterruptKind {
    /// A tool call needs approval before it runs.
    ToolApproval { tool_name: String, args: serde_json::Value },
    /// Moving from one skill phase to the next needs approval.
    PhaseGate { from_skill: String, to_skill: String, deliverable: String },
    /// A skill reached a checkpoint that needs sign-off.
    SkillCheckpoint { checkpoint_name: String, payload: serde_json::Value },
}

/// A human's answer to an approval request.
#[derive(Debug, Clone)]
pub enum ApprovalDecision {
    Approved,
    Rejected { reason: String },
    /// Approved with replacement arguments for the pending tool call.
    Modified { new_args: serde_json::Value },
}

#[derive(Debug, Clone, Copy, PartialEq, Eq, Structural)]
pub enum EnvelopeKind {
    Invoke,
    Result,
    Error,
    Suspended,
    Ping,
    Pong,
}

/// A message between aether and the agent.
#[derive(Debug, Clone)]
pub struct Envelope {
    pub id: uuid::Uuid,
    pub kind: EnvelopeKind,
    pub payload: serde_json::Value,
    pub metadata: HashMap<String, String>,
}

/// Payload of a `Suspended` envelope (agent to aether).
#[derive(Debug, Clone, PartialEq)]
pub struct SuspendPayload {
    pub session_id: String,
    pub approval_id: String,
    pub kind: String,
    pub prompt: String,
}

/// A human decision as aether relays it on `POST /aether/resume`.
#[derive(Debug, Clone, PartialEq)]
pub enum AetherApprovalDecision {
    Approved,
    Rejected { reason: Option<String> },
    Modified { payload: serde_json::Value },
}

/// Body of a `POST /aether/resume` request (aether to agent).
#[derive(Debug, Clone, PartialEq)]
pub struct ResumeRequest {
    pub session_id: String,
    pub approval_id: String,
    pub decision: AetherApprovalDecision,
}

/// The registry's answer to a registration.
#[derive(Debug, Clone)]
pub struct RegisterResponse {
    pub instance_id: String,
    pub poll_interval_secs: u64,
}

/// This agent's standing with the registry.
#[derive(Debug)]
pub struct AetherRegistration {
    pub instance_id: String,
    /// Returned by the registry; reserved for a polling-aware shutdown.
    pub poll_interval_secs: u64,
}

/// Body of `POST /invoke`.
#[derive(Debug)]
pub struct InvokeRequest {
    pub user_id: String,
    pub message: String,
}

/// Body of `POST /sessions`.
pub struct CreateSessionRequest {
    pub user_id: String,
}

/// Body of `POST /sessions/{id}/messages`.
pub struct SendMessageRequest {
    pub user_id: String,
    pub message: String,
}

/// Query of `GET /sessions/{id}`.
pub struct GetSessionQuery {
    pub user_id: String,
}

/// Body of `DELETE /sessions/{id}`.
pub struct EndSessionRequest {
    pub user_id: String,
}

/// A relayed decision as the approval queue takes it: a rejection without a
/// reason has an empty one, a modification carries the new arguments.
pub fn map_decision(d: AetherApprovalDecision) -> (r: ApprovalDecision)
    ensures
        match d {
            AetherApprovalDecision::Approved => r is Approved,
            AetherApprovalDecision::Rejected { reason } => r matches ApprovalDecision::Rejected {
                reason: got,
            } && got@ == match reason {
                Some(x) => x@,
                None => Seq::<char>::empty(),
            },
            AetherApprovalDecision::Modified { payload } => r matches ApprovalDecision::Modified {
                new_args,
            } && new_args == payload,
        },
{
    match d {
        AetherApprovalDecision::Approved => ApprovalDecision::Approved,
        AetherApprovalDecision::Rejected { reason } => ApprovalDecision::Rejected {
            reason: match reason {
                Some(x) => x,
                None => String::new(),
            },
        },
        AetherApprovalDecision::Modified { payload } => ApprovalDecision::Modified { new_args: payload },
    }
}

/// The tag and the human-facing question of an interrupt.
pub open spec fn kind_tag(k: InterruptKind) -> Seq<char> {
    match k {
        InterruptKind::ToolApproval { .. } => "tool_approval"@,
        InterruptKind::PhaseGate { .. } => "phase_gate"@,
        InterruptKind::SkillCheckpoint { .. } => "skill_checkpoint"@,
    }
}

pub open spec fn kind_prompt(k: InterruptKind) -> Seq<char> {
    match k {
        InterruptKind::ToolApproval { tool_name, args } => "Approve tool call `"@ + tool_name@
            + "` with args "@ + json_text(args) + "?"@,
        InterruptKind::PhaseGate { from_skill, to_skill, deliverable } => "Approve phase transition "@
            + from_skill@ + " \u{2192} "@ + to_skill@ + " (deliverable: "@ + deliverable@ + ")?"@,
        InterruptKind::SkillCheckpoint { checkpoint_name, .. } => "Approve checkpoint `"@
            + checkpoint_name@ + "`."@,
    }
}

pub fn interrupt_to_kind_and_prompt(kind: &InterruptKind) -> (r: (String, String))
    ensures
        r.0@ == kind_tag(*kind),
        r.1@ == kind_prompt(*kind),
{
    match kind {
        InterruptKind::ToolApproval { tool_name, args } => {
            let mut p = String::from_str("Approve tool call `");
            append_str(&mut p, tool_name.as_str());
            append_str(&mut p, "` with args ");
            append_str(&mut p, value_text(args).as_str());
            append_str(&mut p, "?");
            (String::from_str("tool_approval"), p)
        },
        InterruptKind::PhaseGate { from_skill, to_skill, deliverable } => {
            let mut p = String::from_str("Approve phase transition ");
            append_str(&mut p, from_skill.as_str());
            append_str(&mut p, " \u{2192} ");
            append_str(&mut p, to_skill.as_str());
            append_str(&mut p, " (deliverable: ");
            append_str(&mut p, deliverable.as_str());
            append_str(&mut p, ")?");
            (String::from_str("phase_gate"), p)
        },
        InterruptKind::SkillCheckpoint { checkpoint_name, .. } => {
            let mut p = String::from_str("Approve checkpoint `");
            append_str(&mut p, checkpoint_name.as_str());
            append_str(&mut p, "`.");
            (String::from_str("skill_checkpoint"), p)
        },
    }
}

/// The payload that tells aether a run is waiting on `approval_id`.
pub fn suspend_payload(session_id: String, approval_id: String, kind: &InterruptKind) -> (p: SuspendPayload)
    ensures
        p.session_id == session_id,
        p.approval_id == approval_id,
        p.kind@ == kind_tag(*kind),
        p.prompt@ == kind_prompt(*kind),
{
    let (tag, prompt) = interrupt_to_kind_and_prompt(kind);
    SuspendPayload { session_id, approval_id, kind: tag, prompt }
}

/// A registration accepted from the registry's answer.
pub fn registration(r: RegisterResponse) -> (a: AetherRegistration)
    ensures
        a.instance_id == r.instance_id,
        a.poll_interval_secs == r.poll_interval_secs,
{
    AetherRegistration { instance_id: r.instance_id, poll_interval_secs: r.poll_interval_secs }
}

/// `s` without its trailing slashes.
pub open spec fn without_trailing_slashes(s: Seq<char>) -> Seq<char>
    decreases s.len(),
{
    if s.len() > 0 && s.last() == '/' {
        without_trailing_slashes(s.drop_last())
    } else {
        s
    }
}

fn trim_slashes(url: &str) -> (s: String)
    ensures
        s@ == without_trailing_slashes(url@),
{
    let v = to_chars(url);
    let mut end = v.len();
    assert(v@.subrange(0, end as int) =~= url@);
    while end > 0 && v[end - 1] == '/'
        invariant
            end <= v@.len(),
            v@ == url@,
            without_trailing_slashes(v@.subrange(0, end as int)) == without_trailing_slashes(url@),
        decreases end,
    {
        assert(v@.subrange(0, end as int).drop_last() =~= v@.subrange(0, end - 1));
        end -= 1;
    }
    let s = string_from_range(&v, 0, end);
    assert(end == 0 ==> v@.subrange(0, end as int).len() == 0);
    s
}

/// `POST` here registers the agent: `{registry}/registry/agents`.
pub fn agents_url(registry_url: &str) -> (u: String)
    ensures
        u@ == without_trailing_slashes(registry_url@) + "/registry/agents"@,
{
    let mut u = trim_slashes(registry_url);
    append_str(&mut u, "/registry/agents");
    u
}

/// `DELETE` here deregisters an instance: `{registry}/registry/instances/{id}`.
pub fn instance_url(registry_url: &str, instance_id: &str) -> (u: String)
    ensures
        u@ == without_trailing_slashes(registry_url@) + "/registry/instances/"@ + instance_id@,
{
    let mut u = trim_slashes(registry_url);
    append_str(&mut u, "/registry/instances/");
    append_str(&mut u, instance_id);
    u
}

/// `POST` here reports an event: `{registry}/registry/instances/{id}/events`.
pub fn events_url(registry_url: &str, instance_id: &str) -> (u: String)
    ensures
        u@ == without_trailing_slashes(registry_url@) + "/registry/instances/"@ + instance_id@
            + "/events"@,
{
    let mut u = instance_url(registry_url, instance_id);
    append_str(&mut u, "/events");
    u
}

/// Who an aether invocation runs for: the `user_id` of its metadata, or
/// `aether` when there is none. Refused unless the envelope asks to invoke.
pub fn aether_invoke_owner(kind: EnvelopeKind, user_id: Option<String>) -> (r: Result<String, String>)
    ensures
        kind != EnvelopeKind::Invoke ==> (r matches Err(e) && e@ == "expected envelope kind: invoke"@),
        kind == EnvelopeKind::Invoke ==> (r matches Ok(o) && o@ == match user_id {
            Some(u) => u@,
            None => "aether"@,
        }),
{
    if kind != EnvelopeKind::Invoke {
        return Err(String::from_str("expected envelope kind: invoke"));
    }
    match user_id {
        Some(u) => Ok(u),
        None => Ok(String::from_str("aether")),
    }
}

/// What `Uuid::parse_str` makes of a text: the identifier, or nothing when
/// the text is not one.
pub uninterp spec fn uuid_parse(s: Seq<char>) -> Option<uuid::Uuid>;

/// `uuid::Uuid::parse_str`, its error dropped. Parsing depends on the text alone.
#[verifier::external_body]
fn parse_uuid(s: &str) -> (r: Option<uuid::Uuid>)
    ensures
        r == uuid_parse(s@),
{
    uuid::Uuid::parse_str(s).ok()
}

/// The session and approval ids of a resume request, or the `400` answer
/// that names the first one that is not an identifier.
pub fn resume_ids(req: &ResumeRequest) -> (r: Result<(uuid::Uuid, uuid::Uuid), (u16, String)>)
    ensures
        match (uuid_parse(req.session_id@), uuid_parse(req.approval_id@)) {
            (None, _) => r matches Err((code, e)) && code == 400 && e@ == "invalid session_id"@,
            (Some(_), None) => r matches Err((code, e)) && code == 400 && e@ == "invalid approval_id"@,
            (Some(s), Some(a)) => r == Ok::<(uuid::Uuid, uuid::Uuid), (u16, String)>((s, a)),
        },
{
    let session = match parse_uuid(req.session_id.as_str()) {
        Some(id) => id,
        None => {
            return Err((400, String::from_str("invalid session_id")));
        },
    };
    let approval = match parse_uuid(req.approval_id.as_str()) {
        Some(id) => id,
        None => {
            return Err((400, String::from_str("invalid approval_id")));
        },
    };
    Ok((session, approval))
}

} // verus!
