//! The agent's decisions between its I/O steps: what goes into the system
//! prompt and the message list of a turn, which tools a turn may use, how a
//! skill phase advances, and what a resumed run is told about the human's
//! decision.

use crate::aether::{json_text, value_text, ApprovalDecision, InterruptKind};
use crate::error::ToolError;
use crate::memory::{ContentBlock, Message, MessageRole};
use crate::routing::PhaseTransition;
use crate::skills::SkillContext;
use crate::text::{append_str, join_strings, join_with, to_chars, trim, trim_range, views};
use vstd::prelude::*;

verus! {

/// Output of a single agent invocation.
#[derive(Debug, Clone)]
pub enum AgentOutput {
    /// The agent completed with this response.
    Done(String),
    /// The agent was interrupted for a human decision; `kind` is what was
    /// submitted to the approval queue.
    Interrupted { approval_id: uuid::Uuid, kind: InterruptKind },
}

/// Result of advancing a skill phase when approvals are configured.
pub enum PhaseAdvanceResult {
    /// The transition was applied at once.
    Advanced(PhaseTransition),
    /// The transition waits for a human; `approval_id` is the queue entry.
    Pending { approval_id: uuid::Uuid },
}

/// A tool invocation request.
#[derive(Debug, Clone)]
pub struct ToolCall {
    pub name: String,
    pub args: serde_json::Value,
}

/// The outcome of a tool invocation.
#[derive(Debug)]
pub struct ToolCallResult {
    pub name: String,
    pub result: Result<serde_json::Value, ToolError>,
}

/// A message holding one text block.
pub open spec fn is_text_message(m: Message, role: MessageRole, text: Seq<char>) -> bool {
    &&& m.role == role
    &&& m.content@.len() == 1
    &&& m.content@[0] matches ContentBlock::Text { text: t } && t@ == text
}

fn text_message(role: MessageRole, text: String) -> (m: Message)
    ensures
        is_text_message(m, role, text@),
{
    Message { role, content: vec![ContentBlock::Text { text }] }
}

/// The parts of the system prompt: the bound skill's instructions and
/// documents, or else the skill summaries when there are any; then the
/// base prompt unless it is blank.
pub open spec fn system_parts(
    skill: Option<SkillContext>,
    summaries: Option<Seq<char>>,
    base: Option<Seq<char>>,
) -> Seq<Seq<char>> {
    let head: Seq<Seq<char>> = match skill {
        Some(ctx) => seq![ctx.instructions@] + views(ctx.documents@),
        None => match summaries {
            Some(b) => if b.len() > 0 {
                seq![b]
            } else {
                seq![]
            },
            None => seq![],
        },
    };
    match base {
        Some(b) => if trim(b).len() > 0 {
            head.push(b)
        } else {
            head
        },
        None => head,
    }
}

pub open spec fn spec_assemble_system(
    skill: Option<SkillContext>,
    summaries: Option<Seq<char>>,
    base: Option<Seq<char>>,
) -> Option<Seq<char>> {
    let parts = system_parts(skill, summaries, base);
    if parts.len() == 0 {
        None
    } else {
        Some(join_with(parts, "\n\n"@))
    }
}

pub open spec fn opt_text(o: Option<&str>) -> Option<Seq<char>> {
    match o {
        Some(s) => Some(s@),
        None => None,
    }
}

pub open spec fn opt_string(o: Option<String>) -> Option<Seq<char>> {
    match o {
        Some(s) => Some(s@),
        None => None,
    }
}

fn is_blank_text(s: &str) -> (b: bool)
    ensures
        b == (trim(s@).len() == 0),
{
    let v = to_chars(s);
    assert(v@.subrange(0, v@.len() as int) =~= v@);
    let (a, z) = trim_range(&v, 0, v.len());
    a >= z
}

/// The system prompt of a turn: the bound skill's instructions and
/// documents, or, while no skill is bound, the skill summaries; then the
/// rendered base prompt (`base`, when it rendered) unless blank; parts
/// separated by a blank line, and no prompt when there is no part.
pub fn assemble_system(skill: Option<&SkillContext>, summaries_block: Option<&str>, base: Option<String>) -> (r: Option<String>)
    ensures
        opt_string(r) == spec_assemble_system(
            match skill {
                Some(c) => Some(*c),
                None => None,
            },
            opt_text(summaries_block),
            opt_string(base),
        ),
{
    let mut parts: Vec<String> = Vec::new();
    match skill {
        Some(ctx) => {
            parts.push(ctx.instructions.clone());
            let mut i: usize = 0;
            while i < ctx.documents.len()
                invariant
                    i <= ctx.documents@.len(),
                    views(parts@) == seq![ctx.instructions@] + views(ctx.documents@.take(i as int)),
                decreases ctx.documents.len() - i,
            {
                let ghost before = views(parts@);
                parts.push(ctx.documents[i].clone());
                assert(views(parts@) =~= before.push(ctx.documents@[i as int]@));
                assert(views(ctx.documents@.take(i + 1)) =~= views(ctx.documents@.take(i as int)).push(
                    ctx.documents@[i as int]@,
                ));
                assert(seq![ctx.instructions@] + views(ctx.documents@.take(i + 1)) =~= (seq![
                    ctx.instructions@,
                ] + views(ctx.documents@.take(i as int))).push(ctx.documents@[i as int]@));
                i += 1;
            }
            assert(ctx.documents@.take(ctx.documents@.len() as int) =~= ctx.documents@);
        },
        None => {
            match summaries_block {
                Some(b) => {
                    if !b.is_empty() {
                        parts.push(String::from_str(b));
                        assert(views(parts@) =~= seq![b@]);
                    } else {
                        assert(views(parts@) =~= Seq::<Seq<char>>::empty());
                    }
                },
                None => {
                    assert(views(parts@) =~= Seq::<Seq<char>>::empty());
                },
            }
        },
    }
    let ghost head = views(parts@);
    assert(head == system_parts(
        match skill {
            Some(c) => Some(*c),
            None => None,
        },
        opt_text(summaries_block),
        None,
    ));
    match base {
        Some(b) => {
            if !is_blank_text(b.as_str()) {
                parts.push(b);
                assert(views(parts@) =~= head.push(b@));
            }
        },
        None => {},
    }
    if parts.len() == 0 {
        None
    } else {
        Some(join_strings(&parts, "\n\n"))
    }
}

/// The messages of a turn: the system prompt (with the long-term memories
/// after it, a blank line between) when there is either, the history, and
/// the user's input.
pub open spec fn system_content(system: Option<Seq<char>>, long_term: Option<Seq<char>>) -> Option<Seq<char>> {
    match (system, long_term) {
        (Some(s), Some(l)) => Some(s + "\n\n"@ + l),
        (Some(s), None) => Some(s),
        (None, Some(l)) => Some(l),
        (None, None) => None,
    }
}

pub open spec fn turn_messages_ok(
    r: Seq<Message>,
    system: Option<Seq<char>>,
    history: Seq<Message>,
    input: Seq<char>,
) -> bool {
    match system {
        Some(s) => {
            &&& r.len() == history.len() + 2
            &&& is_text_message(r[0], MessageRole::System, s)
            &&& r.subrange(1, r.len() - 1) == history
            &&& is_text_message(r.last(), MessageRole::User, input)
        },
        None => {
            &&& r.len() == history.len() + 1
            &&& r.subrange(0, r.len() - 1) == history
            &&& is_text_message(r.last(), MessageRole::User, input)
        },
    }
}

pub fn assemble_messages(system: Option<String>, history: Vec<Message>, input: &str) -> (r: Vec<Message>)
    ensures
        turn_messages_ok(r@, opt_string(system), history@, input@),
{
    assemble_messages_with_context(system, None, history, input)
}

pub fn assemble_messages_with_context(
    system: Option<String>,
    long_term_text: Option<String>,
    history: Vec<Message>,
    input: &str,
) -> (r: Vec<Message>)
    ensures
        turn_messages_ok(r@, system_content(opt_string(system), opt_string(long_term_text)), history@, input@),
{
    let sys_content = match (system, long_term_text) {
        (Some(s), Some(l)) => {
            let mut c = s;
            append_str(&mut c, "\n\n");
            append_str(&mut c, l.as_str());
            Some(c)
        },
        (Some(s), None) => Some(s),
        (None, Some(l)) => Some(l),
        (None, None) => None,
    };
    let ghost h = history@;
    let mut msgs: Vec<Message> = Vec::new();
    let has_system = sys_content.is_some();
    match sys_content {
        Some(c) => {
            msgs.push(text_message(MessageRole::System, c));
        },
        None => {},
    }
    let start = msgs.len();
    let mut rest = history;
    msgs.append(&mut rest);
    msgs.push(text_message(MessageRole::User, String::from_str(input)));
    assert(msgs@.subrange(start as int, msgs@.len() - 1) =~= h);
    msgs
}

/// The user's input at the start of a new phase: the carried-over context,
/// a blank line, then the input.
pub fn phase_opening_input(context: &str, input: &str) -> (s: String)
    ensures
        s@ == context@ + "\n\n"@ + input@,
{
    let mut s = String::from_str(context);
    append_str(&mut s, "\n\n");
    append_str(&mut s, input);
    s
}

/// The tools a turn may use: every registered tool when no skill is bound,
/// otherwise the bound skill's tools that are registered, in the skill's
/// order. A skill that lists no tools gets none.
pub open spec fn spec_active_tools(skill_tools: Option<Seq<Seq<char>>>, registered: Seq<Seq<char>>) -> Seq<Seq<char>> {
    match skill_tools {
        None => registered,
        Some(ts) => ts.filter(|t: Seq<char>| registered.contains(t)),
    }
}

fn str_eq(a: &String, b: &String) -> (r: bool)
    ensures
        r == (a@ == b@),
{
    let x = to_chars(a.as_str());
    let y = to_chars(b.as_str());
    if x.len() != y.len() {
        return false;
    }
    let mut i: usize = 0;
    while i < x.len()
        invariant
            x@ == a@,
            y@ == b@,
            x@.len() == y@.len(),
            i <= x@.len(),
            forall|k: int| 0 <= k < i ==> x@[k] == y@[k],
        decreases x.len() - i,
    {
        if x[i] != y[i] {
            return false;
        }
        i += 1;
    }
    assert(x@ =~= y@);
    true
}

fn is_registered(name: &String, registered: &Vec<String>) -> (b: bool)
    ensures
        b == views(registered@).contains(name@),
{
    let mut i: usize = 0;
    while i < registered.len()
        invariant
            i <= registered@.len(),
            forall|k: int| 0 <= k < i ==> registered@[k]@ != name@,
        decreases registered.len() - i,
    {
        if str_eq(&registered[i], name) {
            assert(views(registered@)[i as int] == name@);
            return true;
        }
        i += 1;
    }
    assert forall|k: int| 0 <= k < views(registered@).len() implies views(registered@)[k] != name@ by {
        assert(views(registered@)[k] == registered@[k]@);
    }
    false
}

pub fn active_tool_names(skill: Option<&SkillContext>, registered: &Vec<String>) -> (r: Vec<String>)
    ensures
        views(r@) == spec_active_tools(
            match skill {
                Some(c) => Some(views(c.tools@)),
                None => None,
            },
            views(registered@),
        ),
{
    match skill {
        None => {
            let mut r: Vec<String> = Vec::new();
            let mut i: usize = 0;
            while i < registered.len()
                invariant
                    i <= registered@.len(),
                    views(r@) == views(registered@).take(i as int),
                decreases registered.len() - i,
            {
                let ghost before = views(r@);
                r.push(registered[i].clone());
                assert(views(r@) =~= before.push(registered@[i as int]@));
                assert(views(registered@).take(i + 1) =~= views(registered@).take(i as int).push(
                    registered@[i as int]@,
                ));
                i += 1;
            }
            assert(views(registered@).take(registered@.len() as int) =~= views(registered@));
            r
        },
        Some(ctx) => {
            let ghost reg = views(registered@);
            let ghost ts = views(ctx.tools@);
            let mut r: Vec<String> = Vec::new();
            let mut i: usize = 0;
            while i < ctx.tools.len()
                invariant
                    i <= ctx.tools@.len(),
                    reg == views(registered@),
                    ts == views(ctx.tools@),
                    views(r@) == ts.take(i as int).filter(|t: Seq<char>| reg.contains(t)),
                decreases ctx.tools.len() - i,
            {
                let t = &ctx.tools[i];
                let keep = is_registered(t, registered);
                assert(ts.take(i + 1).drop_last() =~= ts.take(i as int));
                assert(ts.take(i + 1).last() == t@);
                reveal_with_fuel(Seq::filter, 1);
                let ghost before = views(r@);
                if keep {
                    r.push(t.clone());
                    assert(views(r@) =~= before.push(t@));
                }
                i += 1;
            }
            assert(ts.take(ctx.tools@.len() as int) =~= ts);
            r
        },
    }
}

/// Retrieved long-term memories as one block, one `[Memory] ...` line
/// each; no block when nothing was retrieved.
pub open spec fn spec_memory_block(contents: Seq<Seq<char>>) -> Option<Seq<char>> {
    if contents.len() == 0 {
        None
    } else {
        Some(join_with(contents.map_values(|c: Seq<char>| "[Memory] "@ + c), "\n"@))
    }
}

pub fn memory_block(contents: &Vec<String>) -> (r: Option<String>)
    ensures
        opt_string(r) == spec_memory_block(views(contents@)),
{
    if contents.len() == 0 {
        return None;
    }
    let ghost cs = views(contents@);
    let mut lines: Vec<String> = Vec::new();
    let mut i: usize = 0;
    while i < contents.len()
        invariant
            i <= contents@.len(),
            cs == views(contents@),
            views(lines@) == cs.take(i as int).map_values(|c: Seq<char>| "[Memory] "@ + c),
        decreases contents.len() - i,
    {
        let mut line = String::from_str("[Memory] ");
        append_str(&mut line, contents[i].as_str());
        let ghost before = views(lines@);
        lines.push(line);
        assert(views(lines@) =~= before.push(line@));
        assert(cs.take(i + 1).map_values(|c: Seq<char>| "[Memory] "@ + c) =~= cs.take(i as int).map_values(
            |c: Seq<char>| "[Memory] "@ + c,
        ).push("[Memory] "@ + cs[i as int]));
        i += 1;
    }
    assert(cs.take(contents@.len() as int) =~= cs);
    Some(join_strings(&lines, "\n"))
}

/// The long-term record of a completed turn.
pub fn turn_record(input: &str, response: &str) -> (s: String)
    ensures
        s@ == "User: "@ + input@ + "\nAssistant: "@ + response@,
{
    let mut s = String::from_str("User: ");
    append_str(&mut s, input);
    append_str(&mut s, "\nAssistant: ");
    append_str(&mut s, response);
    s
}

/// How a strategy run of a turn ended.
pub enum RunEnd {
    /// The run answered with `text`.
    Answered { text: String },
    /// An approval gate halted the run; `wire` carries its request.
    Interrupted { wire: String },
    /// The run failed.
    Failed,
}

/// What a turn stores once its run has ended.
pub enum TurnStep {
    /// Append the turn (to session memory, then the cache), hand `longterm`
    /// to long-term memory when there is one, and answer `answer`.
    Record { user: Message, assistant: Message, longterm: Option<String>, answer: String },
    /// Keep the interrupted state; no half turn is written.
    Suspend { wire: String },
    /// Write nothing and return the run's error.
    Abort,
}

/// The decision at the end of a turn whose user input was `input`: an
/// answered run records the user's message and the answer (and, with
/// long-term memory, the turn's record); an interrupted run suspends; a
/// failed one stores nothing. Each reports its outcome to the metrics.
pub fn turn_step(input: &str, end: RunEnd, has_longterm: bool) -> (r: (TurnStep, crate::metrics::InvokeOutcome))
    ensures
        match end {
            RunEnd::Answered { text } => r.1 is Done && (r.0 matches TurnStep::Record {
                user,
                assistant,
                longterm,
                answer,
            } && is_text_message(user, MessageRole::User, input@) && is_text_message(
                assistant,
                MessageRole::Assistant,
                text@,
            ) && answer@ == text@ && (if has_longterm {
                longterm matches Some(l) && l@ == "User: "@ + input@ + "\nAssistant: "@ + text@
            } else {
                longterm is None
            })),
            RunEnd::Interrupted { wire } => r.1 is Interrupted && (r.0 matches TurnStep::Suspend { wire: w } && w@
                == wire@),
            RunEnd::Failed => r.1 is Error && r.0 is Abort,
        },
{
    match end {
        RunEnd::Answered { text } => {
            let user = Message::text(MessageRole::User, input);
            let assistant = Message::text(MessageRole::Assistant, text.as_str());
            let longterm = if has_longterm {
                Some(turn_record(input, text.as_str()))
            } else {
                None
            };
            (TurnStep::Record { user, assistant, longterm, answer: text }, crate::metrics::InvokeOutcome::Done)
        },
        RunEnd::Interrupted { wire } => (TurnStep::Suspend { wire }, crate::metrics::InvokeOutcome::Interrupted),
        RunEnd::Failed => (TurnStep::Abort, crate::metrics::InvokeOutcome::Error),
    }
}

/// What a parsed phase transition leads to.
pub enum PhaseStep {
    /// The current skill's phase is gated: ask a human first.
    AwaitApproval { kind: InterruptKind, transition: PhaseTransition },
    /// Rebind to the next skill, opening its phase with this context.
    Apply { transition: PhaseTransition, opening_context: String },
}

/// The context a new phase opens with: the previous phase's summary.
pub open spec fn opening_context(summary: Seq<char>) -> Seq<char> {
    "Context from previous phase: "@ + summary
}

/// The step for a parsed transition; `gated_skill` is the current skill
/// when approvals are configured and its phase is gated.
pub fn phase_step(transition: PhaseTransition, gated_skill: Option<String>) -> (s: PhaseStep)
    ensures
        match gated_skill {
            Some(from) => s matches PhaseStep::AwaitApproval { kind, transition: t } && t
                == transition && (kind matches InterruptKind::PhaseGate {
                from_skill,
                to_skill,
                deliverable,
            } && from_skill@ == from@ && to_skill@ == transition.next_skill@ && deliverable@
                == transition.deliverable@),
            None => s matches PhaseStep::Apply { transition: t, opening_context: c } && t == transition
                && c@ == opening_context(transition.summary@),
        },
{
    match gated_skill {
        Some(from) => {
            let kind = InterruptKind::PhaseGate {
                from_skill: from,
                to_skill: transition.next_skill.clone(),
                deliverable: transition.deliverable.clone(),
            };
            PhaseStep::AwaitApproval { kind, transition }
        },
        None => {
            let mut c = String::from_str("Context from previous phase: ");
            append_str(&mut c, transition.summary.as_str());
            PhaseStep::Apply { transition, opening_context: c }
        },
    }
}

/// The reply to a decision on a gated phase transition to `next_skill`, and
/// whether the transition is applied.
pub fn phase_gate_reply(decision: &ApprovalDecision, next_skill: &str) -> (r: (bool, String))
    ensures
        match decision {
            ApprovalDecision::Rejected { reason } => !r.0 && r.1@ == "Phase transition rejected: "@
                + reason@,
            _ => r.0 && r.1@ == "Phase transition to "@ + next_skill@ + " approved."@,
        },
{
    match decision {
        ApprovalDecision::Rejected { reason } => {
            let mut s = String::from_str("Phase transition rejected: ");
            append_str(&mut s, reason.as_str());
            (false, s)
        },
        _ => {
            let mut s = String::from_str("Phase transition to ");
            append_str(&mut s, next_skill);
            append_str(&mut s, " approved.");
            (true, s)
        },
    }
}

/// Why a resume is refused: the approval it names is not the one the
/// session waits on.
pub fn approval_mismatch(expected: &String, got: &String) -> (r: Option<String>)
    ensures
        expected@ == got@ ==> r is None,
        expected@ != got@ ==> (r matches Some(m) && m@ == "approval_id mismatch: expected "@
            + expected@ + ", got "@ + got@),
{
    if str_eq(expected, got) {
        None
    } else {
        let mut m = String::from_str("approval_id mismatch: expected ");
        append_str(&mut m, expected.as_str());
        append_str(&mut m, ", got ");
        append_str(&mut m, got.as_str());
        Some(m)
    }
}

/// A tool outcome as the model reads it.
pub open spec fn result_text(r: Result<serde_json::Value, ToolError>) -> Seq<char> {
    match r {
        Ok(v) => json_text(v),
        Err(ToolError::Execution(m)) => "Error: "@ + "Execution failed: "@ + m@,
        Err(ToolError::NotFound(m)) => "Error: "@ + "Not found: "@ + m@,
        Err(ToolError::InvalidArgs(m)) => "Error: "@ + "Invalid arguments: "@ + m@,
    }
}

/// Tool results as an observation: a `Tool:`/`Result:` pair per call,
/// separated by blank lines.
pub open spec fn spec_results_text(rs: Seq<ToolCallResult>) -> Seq<char> {
    join_with(rs.map_values(|r: ToolCallResult| "Tool: "@ + r.name@ + "\nResult: "@ + result_text(r.result)), "\n\n"@)
}

pub fn format_tool_results(results: &Vec<ToolCallResult>) -> (s: String)
    ensures
        s@ == spec_results_text(results@),
{
    let ghost items = results@.map_values(
        |r: ToolCallResult| "Tool: "@ + r.name@ + "\nResult: "@ + result_text(r.result),
    );
    let mut parts: Vec<String> = Vec::new();
    let mut i: usize = 0;
    while i < results.len()
        invariant
            i <= results@.len(),
            items == results@.map_values(
                |r: ToolCallResult| "Tool: "@ + r.name@ + "\nResult: "@ + result_text(r.result),
            ),
            views(parts@) == items.take(i as int),
        decreases results.len() - i,
    {
        let r = &results[i];
        let v = match &r.result {
            Ok(v) => value_text(v),
            Err(e) => {
                let mut t = String::from_str("Error: ");
                append_str(&mut t, e.message().as_str());
                assert(t@ =~= result_text(r.result));
                t
            },
        };
        assert(v@ == result_text(r.result));
        assert(r == results@[i as int]);
        let mut p = String::from_str("Tool: ");
        append_str(&mut p, r.name.as_str());
        append_str(&mut p, "\nResult: ");
        append_str(&mut p, v.as_str());
        let ghost before = views(parts@);
        parts.push(p);
        assert(views(parts@) =~= before.push(items[i as int]));
        assert(items.take(i + 1) =~= items.take(i as int).push(items[i as int]));
        i += 1;
    }
    assert(items.take(results@.len() as int) =~= items);
    join_strings(&parts, "\n\n")
}

/// What a resumed tool call or checkpoint does next: run tool calls, or
/// go straight on with an observation.
pub enum ResumePlan {
    Execute(Vec<ToolCall>),
    Observe(String),
}

/// The rejection observation for pending calls.
pub open spec fn spec_rejections(pending: Seq<ToolCall>, reason: Seq<char>) -> Seq<char> {
    join_with(pending.map_values(|c: ToolCall| "Tool: "@ + c.name@ + "\nResult: Rejected by approver: "@ + reason), "\n\n"@)
}

/// The next step after a decision on pending tool calls (none pending
/// means a checkpoint): approved calls run as they were, a modification
/// runs the first call with the new arguments, a rejection is reported per
/// call.
pub fn plan_resume(decision: &ApprovalDecision, pending: &Vec<ToolCall>) -> (p: ResumePlan)
    ensures
        match decision {
            ApprovalDecision::Approved => if pending@.len() == 0 {
                p matches ResumePlan::Observe(o) && o@ == "Checkpoint approved. Continue."@
            } else {
                p matches ResumePlan::Execute(cs) && cs@.len() == pending@.len() && forall|i: int|
                    0 <= i < pending@.len() ==> (#[trigger] cs@[i]).name@ == pending@[i].name@
                        && cs@[i].args == pending@[i].args
            },
            ApprovalDecision::Modified { new_args } => if pending@.len() == 0 {
                p matches ResumePlan::Observe(o) && o@ == "No tool calls to modify."@
            } else {
                p matches ResumePlan::Execute(cs) && cs@.len() == 1 && cs@[0].name@ == pending@[0].name@
                    && cs@[0].args == *new_args
            },
            ApprovalDecision::Rejected { reason } => if pending@.len() == 0 {
                p matches ResumePlan::Observe(o) && o@ == "Checkpoint rejected: "@ + reason@
                    + ". Revise and resubmit."@
            } else {
                p matches ResumePlan::Observe(o) && o@ == spec_rejections(pending@, reason@)
            },
        },
{
    match decision {
        ApprovalDecision::Approved => {
            if pending.len() == 0 {
                return ResumePlan::Observe(String::from_str("Checkpoint approved. Continue."));
            }
            let mut cs: Vec<ToolCall> = Vec::new();
            let mut i: usize = 0;
            while i < pending.len()
                invariant
                    i <= pending@.len(),
                    cs@.len() == i,
                    forall|k: int|
                        0 <= k < i ==> (#[trigger] cs@[k]).name@ == pending@[k].name@ && cs@[k].args
                            == pending@[k].args,
                decreases pending.len() - i,
            {
                cs.push(ToolCall { name: pending[i].name.clone(), args: pending[i].args.clone() });
                i += 1;
            }
            ResumePlan::Execute(cs)
        },
        ApprovalDecision::Modified { new_args } => {
            if pending.len() == 0 {
                return ResumePlan::Observe(String::from_str("No tool calls to modify."));
            }
            let call = ToolCall { name: pending[0].name.clone(), args: new_args.clone() };
            ResumePlan::Execute(vec![call])
        },
        ApprovalDecision::Rejected { reason } => {
            if pending.len() == 0 {
                let mut o = String::from_str("Checkpoint rejected: ");
                append_str(&mut o, reason.as_str());
                append_str(&mut o, ". Revise and resubmit.");
                return ResumePlan::Observe(o);
            }
            let ghost items = pending@.map_values(
                |c: ToolCall| "Tool: "@ + c.name@ + "\nResult: Rejected by approver: "@ + reason@,
            );
            let mut parts: Vec<String> = Vec::new();
            let mut i: usize = 0;
            while i < pending.len()
                invariant
                    i <= pending@.len(),
                    items == pending@.map_values(
                        |c: ToolCall| "Tool: "@ + c.name@ + "\nResult: Rejected by approver: "@ + reason@,
                    ),
                    views(parts@) == items.take(i as int),
                decreases pending.len() - i,
            {
                let mut p = String::from_str("Tool: ");
                append_str(&mut p, pending[i].name.as_str());
                append_str(&mut p, "\nResult: Rejected by approver: ");
                append_str(&mut p, reason.as_str());
                let ghost before = views(parts@);
                parts.push(p);
                assert(views(parts@) =~= before.push(items[i as int]));
                assert(items.take(i + 1) =~= items.take(i as int).push(items[i as int]));
                i += 1;
            }
            assert(items.take(pending@.len() as int) =~= items);
            ResumePlan::Observe(join_strings(&parts, "\n\n"))
        },
    }
}

/// A skill's approval declarations.
pub struct SkillHitl {
    pub hitl_tools: Vec<String>,
    pub phase_gate: bool,
    pub checkpoints: Vec<String>,
}

pub open spec fn declares_hitl(s: SkillHitl) -> bool {
    s.hitl_tools@.len() > 0 || s.phase_gate || s.checkpoints@.len() > 0
}

/// Approvals are switched on by themselves when some trusted system skill
/// declares a gated tool, a phase gate or a checkpoint.
pub fn needs_approvals(skills: &Vec<SkillHitl>) -> (b: bool)
    ensures
        b == exists|i: int| 0 <= i < skills@.len() && declares_hitl(#[trigger] skills@[i]),
{
    let mut i: usize = 0;
    while i < skills.len()
        invariant
            i <= skills@.len(),
            forall|k: int| 0 <= k < i ==> !declares_hitl(#[trigger] skills@[k]),
        decreases skills.len() - i,
    {
        let s = &skills[i];
        if s.hitl_tools.len() > 0 || s.phase_gate || s.checkpoints.len() > 0 {
            assert(declares_hitl(skills@[i as int]));
            return true;
        }
        i += 1;
    }
    false
}

/// What a session waiting on a human keeps, to pick the run up again.
#[derive(Debug, Clone)]
pub enum InterruptedState {
    /// Tool calls wait for approval.
    PendingToolCall {
        approval_id: String,
        kind_json: String,
        history_json: String,
        pending_calls_json: String,
        active_tool_names: Vec<String>,
        skill_context_json: Option<String>,
    },
    /// A skill checkpoint waits for sign-off.
    PendingCheckpoint {
        approval_id: String,
        kind_json: String,
        history_json: String,
        active_tool_names: Vec<String>,
        skill_context_json: Option<String>,
    },
    /// A phase transition waits for approval.
    PendingPhaseGate { approval_id: String, transition_json: String },
}

impl InterruptedState {
    /// The approval the session waits on.
    pub fn approval_id_str(&self) -> (s: &str)
        ensures
            s@ == match self {
                InterruptedState::PendingToolCall { approval_id, .. } => approval_id@,
                InterruptedState::PendingCheckpoint { approval_id, .. } => approval_id@,
                InterruptedState::PendingPhaseGate { approval_id, .. } => approval_id@,
            },
    {
        match self {
            InterruptedState::PendingToolCall { approval_id, .. } => approval_id.as_str(),
            InterruptedState::PendingCheckpoint { approval_id, .. } => approval_id.as_str(),
            InterruptedState::PendingPhaseGate { approval_id, .. } => approval_id.as_str(),
        }
    }
}

/// The state a run interrupted by `kind` leaves behind: a checkpoint keeps
/// no pending calls; any other interrupt keeps the calls it held up.
pub fn interrupted_state(
    kind: &InterruptKind,
    approval_id: String,
    kind_json: String,
    history_json: String,
    pending_calls_json: String,
    active_tool_names: Vec<String>,
    skill_context_json: Option<String>,
) -> (s: InterruptedState)
    ensures
        kind is SkillCheckpoint ==> s == (InterruptedState::PendingCheckpoint {
            approval_id,
            kind_json,
            history_json,
            active_tool_names,
            skill_context_json,
        }),
        !(kind is SkillCheckpoint) ==> s == (InterruptedState::PendingToolCall {
            approval_id,
            kind_json,
            history_json,
            pending_calls_json,
            active_tool_names,
            skill_context_json,
        }),
{
    match kind {
        InterruptKind::SkillCheckpoint { .. } => InterruptedState::PendingCheckpoint {
            approval_id,
            kind_json,
            history_json,
            active_tool_names,
            skill_context_json,
        },
        _ => InterruptedState::PendingToolCall {
            approval_id,
            kind_json,
            history_json,
            pending_calls_json,
            active_tool_names,
            skill_context_json,
        },
    }
}

/// What a resumed tool call or checkpoint starts from: the saved history,
/// the pending calls (none, as `[]`, for a checkpoint), the active tools and
/// the skill context.
pub struct ResumeInputs {
    pub history_json: String,
    pub pending_calls_json: String,
    pub active_tool_names: Vec<String>,
    pub skill_context_json: Option<String>,
}

pub fn resume_inputs(state: InterruptedState) -> (r: ResumeInputs)
    requires
        !(state is PendingPhaseGate),
    ensures
        match state {
            InterruptedState::PendingToolCall {
                history_json,
                pending_calls_json,
                active_tool_names,
                skill_context_json,
                ..
            } => r.history_json == history_json && r.pending_calls_json == pending_calls_json
                && r.active_tool_names == active_tool_names && r.skill_context_json == skill_context_json,
            InterruptedState::PendingCheckpoint { history_json, active_tool_names, skill_context_json, .. } => {
                r.history_json == history_json && r.pending_calls_json@ == "[]"@ && r.active_tool_names
                    == active_tool_names && r.skill_context_json == skill_context_json
            },
            InterruptedState::PendingPhaseGate { .. } => false,
        },
{
    match state {
        InterruptedState::PendingToolCall {
            history_json,
            pending_calls_json,
            active_tool_names,
            skill_context_json,
            ..
        } => ResumeInputs { history_json, pending_calls_json, active_tool_names, skill_context_json },
        InterruptedState::PendingCheckpoint { history_json, active_tool_names, skill_context_json, .. } => {
            ResumeInputs {
                history_json,
                pending_calls_json: String::from_str("[]"),
                active_tool_names,
                skill_context_json,
            }
        },
        InterruptedState::PendingPhaseGate { .. } => {
            proof {
                assert(false);
            }
            ResumeInputs {
                history_json: String::new(),
                pending_calls_json: String::new(),
                active_tool_names: Vec::new(),
                skill_context_json: None,
            }
        },
    }
}

/// A run held up for a human: the approval, the interrupt (as JSON), the
/// conversation so far, the calls waiting and the tools that were active.
pub struct HitlInterrupt {
    pub approval_id: uuid::Uuid,
    pub kind_json: String,
    pub history: Vec<Message>,
    pub pending_calls: Vec<ToolCall>,
    pub active_tool_names: Vec<String>,
}

} // verus!
