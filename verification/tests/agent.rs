use agentverse::aether::{ApprovalDecision, InterruptKind};
use agentverse::agent::{
    active_tool_names, approval_mismatch, assemble_messages, assemble_messages_with_context, assemble_system,
    format_tool_results, memory_block, needs_approvals, phase_gate_reply, phase_opening_input, phase_step,
    plan_resume, turn_step, interrupted_state, RunEnd, TurnStep, resume_inputs, turn_record, InterruptedState, PhaseStep, ResumePlan, SkillHitl,
    ToolCall, ToolCallResult,
};
use agentverse::error::ToolError;
use agentverse::memory::{Message, MessageRole};
use agentverse::routing::PhaseTransition;
use agentverse::skills::{format_skill_summaries, Skill, SkillContext};

fn ctx(instructions: &str, documents: Vec<&str>, tools: Vec<&str>) -> SkillContext {
    SkillContext {
        skill_id: "test-skill".to_string(),
        instructions: instructions.to_string(),
        documents: documents.into_iter().map(|d| d.to_string()).collect(),
        tools: tools.into_iter().map(|t| t.to_string()).collect(),
        max_iterations: None,
    }
}

fn skill(id: &str, description: &str) -> Skill {
    Skill {
        id: id.into(),
        version: "1.0.0".into(),
        description: description.into(),
        tags: vec![],
        tools: vec![],
        activation_domains: vec![],
        instructions: String::new(),
        documents: vec![],
        max_iterations: None,
    }
}

fn check_active_skill() {
    let c = ctx("You are an expert editor.", vec!["## Principles\nBe thorough."], vec![]);
    let s = assemble_system(Some(&c), None, None).unwrap();
    assert!(s.contains("You are an expert editor."), "instructions missing");
    assert!(s.contains("Be thorough."), "document content missing");
}

fn check_summaries_block() {
    let block = "## Available Skills\n\n- code-review: Reviews code.";
    let result = assemble_system(None, Some(block), None);
    assert!(result.unwrap().contains("## Available Skills"));
}

fn check_skill_excludes_summaries() {
    let c = ctx("Skill active.", vec![], vec![]);
    let s = assemble_system(Some(&c), Some("## Available Skills\n\nshould not appear"), None).unwrap();
    assert!(s.contains("Skill active."));
    assert!(!s.contains("## Available Skills"), "summaries must not appear when skill is active");
}

#[test]
fn agent_assemble_system_with_active_skill_contains_instructions_and_docs() {
    check_active_skill();
}

#[test]
fn agent_assemble_system_with_summaries_contains_block() {
    check_summaries_block();
}

#[test]
fn agent_assemble_system_skill_active_excludes_summaries() {
    check_skill_excludes_summaries();
}

#[test]
fn invoke_assemble_system_with_active_skill_contains_instructions_and_docs() {
    check_active_skill();
}

#[test]
fn invoke_assemble_system_with_summaries_contains_block() {
    check_summaries_block();
}

#[test]
fn invoke_assemble_system_skill_active_excludes_summaries() {
    check_skill_excludes_summaries();
}

#[test]
fn assemble_system_joins_parts_and_skips_blank_base() {
    let c = ctx("I.", vec!["D1", "D2"], vec![]);
    assert_eq!(assemble_system(Some(&c), None, Some("Base.".to_string())).unwrap(), "I.\n\nD1\n\nD2\n\nBase.");
    assert_eq!(assemble_system(None, Some(""), Some("  \n".to_string())), None);
    assert_eq!(assemble_system(None, None, Some("Base.".to_string())).unwrap(), "Base.");
}

#[test]
fn format_skill_summaries_is_sorted_and_contains_descriptions() {
    let skills = vec![skill("z-skill", "Does Z."), skill("a-skill", "Does A.")];
    let refs: Vec<&Skill> = skills.iter().collect();
    let text = format_skill_summaries(&refs);
    assert!(text.contains("## Available Skills"));
    assert!(text.contains("a-skill: Does A."));
    assert!(text.contains("z-skill: Does Z."));
    assert!(text.find("a-skill").unwrap() < text.find("z-skill").unwrap());
}

#[test]
fn format_skill_summaries_empty_list_returns_empty_string() {
    assert_eq!(format_skill_summaries(&[]), String::new());
}

#[test]
fn format_skill_summaries_exact_text() {
    let skills = vec![skill("b", "Second."), skill("a", "First."), skill("ab", "Middle.")];
    let refs: Vec<&Skill> = skills.iter().collect();
    assert_eq!(
        format_skill_summaries(&refs),
        "## Available Skills\n\n- a: First.\n- ab: Middle.\n- b: Second.\n\nYou may use a skill when the user's request matches one of the above."
    );
}

#[test]
fn messages_of_a_turn() {
    let history = vec![Message::text(MessageRole::User, "earlier"), Message::text(MessageRole::Assistant, "reply")];
    let m = assemble_messages_with_context(Some("sys".to_string()), Some("[Memory] x".to_string()), history, "now");
    assert_eq!(m.len(), 4);
    assert_eq!(m[0].role, MessageRole::System);
    assert_eq!(m[0].as_text(), "sys\n\n[Memory] x");
    assert_eq!(m[1].as_text(), "earlier");
    assert_eq!(m[3].role, MessageRole::User);
    assert_eq!(m[3].as_text(), "now");
    let m = assemble_messages(None, vec![], "hi");
    assert_eq!(m.len(), 1);
    assert_eq!(m[0].as_text(), "hi");
}

#[test]
fn skill_without_tools_gets_no_active_tools() {
    let registered = vec!["find_tools".to_string(), "echo".to_string()];
    let c = ctx("x", vec![], vec![]);
    assert!(active_tool_names(Some(&c), &registered).is_empty());
    assert_eq!(active_tool_names(None, &registered), registered);
    let c = ctx("x", vec![], vec!["echo", "missing"]);
    assert_eq!(active_tool_names(Some(&c), &registered), vec!["echo".to_string()]);
}

#[test]
fn memory_and_turn_texts() {
    assert_eq!(memory_block(&vec![]), None);
    assert_eq!(
        memory_block(&vec!["likes tea".to_string(), "lives in Oslo".to_string()]).unwrap(),
        "[Memory] likes tea\n[Memory] lives in Oslo"
    );
    assert_eq!(turn_record("q", "a"), "User: q\nAssistant: a");
    assert_eq!(phase_opening_input("Context from previous phase: s", "deliverable"), "Context from previous phase: s\n\ndeliverable");
}

fn transition() -> PhaseTransition {
    PhaseTransition { next_skill: "skill-b".to_string(), summary: "Found 5 items".to_string(), deliverable: "Extracted data.".to_string() }
}

#[test]
fn phase_steps() {
    match phase_step(transition(), None) {
        PhaseStep::Apply { transition: t, opening_context } => {
            assert_eq!(t.next_skill, "skill-b");
            assert_eq!(opening_context, "Context from previous phase: Found 5 items");
            assert!(!opening_context.contains("Extracted data."));
        }
        _ => panic!("expected Apply"),
    }
    match phase_step(transition(), Some("skill-a".to_string())) {
        PhaseStep::AwaitApproval { kind: InterruptKind::PhaseGate { from_skill, to_skill, deliverable }, .. } => {
            assert_eq!(from_skill, "skill-a");
            assert_eq!(to_skill, "skill-b");
            assert_eq!(deliverable, "Extracted data.");
        }
        _ => panic!("expected a phase gate"),
    }
}

#[test]
fn phase_gate_replies() {
    assert_eq!(phase_gate_reply(&ApprovalDecision::Approved, "skill-b"), (true, "Phase transition to skill-b approved.".to_string()));
    assert_eq!(
        phase_gate_reply(&ApprovalDecision::Rejected { reason: "not yet".to_string() }, "skill-b"),
        (false, "Phase transition rejected: not yet".to_string())
    );
}

#[test]
fn approval_ids_must_match() {
    assert_eq!(approval_mismatch(&"a".to_string(), &"a".to_string()), None);
    assert_eq!(
        approval_mismatch(&"a".to_string(), &"b".to_string()).unwrap(),
        "approval_id mismatch: expected a, got b"
    );
}

fn call(name: &str) -> ToolCall {
    ToolCall { name: name.to_string(), args: serde_json::from_str("{}").unwrap() }
}

#[test]
fn resume_plans() {
    match plan_resume(&ApprovalDecision::Approved, &vec![]) {
        ResumePlan::Observe(o) => assert_eq!(o, "Checkpoint approved. Continue."),
        _ => panic!(),
    }
    match plan_resume(&ApprovalDecision::Approved, &vec![call("a"), call("b")]) {
        ResumePlan::Execute(cs) => assert_eq!(cs.len(), 2),
        _ => panic!(),
    }
    let new_args: serde_json::Value = serde_json::from_str(r#"{"x":2}"#).unwrap();
    match plan_resume(&ApprovalDecision::Modified { new_args: new_args.clone() }, &vec![call("a"), call("b")]) {
        ResumePlan::Execute(cs) => {
            assert_eq!(cs.len(), 1);
            assert_eq!(cs[0].name, "a");
            assert_eq!(cs[0].args, new_args);
        }
        _ => panic!(),
    }
    match plan_resume(&ApprovalDecision::Modified { new_args }, &vec![]) {
        ResumePlan::Observe(o) => assert_eq!(o, "No tool calls to modify."),
        _ => panic!(),
    }
    match plan_resume(&ApprovalDecision::Rejected { reason: "no".to_string() }, &vec![]) {
        ResumePlan::Observe(o) => assert_eq!(o, "Checkpoint rejected: no. Revise and resubmit."),
        _ => panic!(),
    }
    match plan_resume(&ApprovalDecision::Rejected { reason: "no".to_string() }, &vec![call("a"), call("b")]) {
        ResumePlan::Observe(o) => assert_eq!(
            o,
            "Tool: a\nResult: Rejected by approver: no\n\nTool: b\nResult: Rejected by approver: no"
        ),
        _ => panic!(),
    }
}

#[test]
fn tool_results_as_observation() {
    let results = vec![
        ToolCallResult { name: "echo".to_string(), result: Ok(serde_json::from_str(r#"{"text":"hi"}"#).unwrap()) },
        ToolCallResult { name: "calc".to_string(), result: Err(ToolError::InvalidArgs("x".to_string())) },
    ];
    assert_eq!(
        format_tool_results(&results),
        "Tool: echo\nResult: {\"text\":\"hi\"}\n\nTool: calc\nResult: Error: Invalid arguments: x"
    );
}

#[test]
fn approvals_switch_on_from_skill_declarations() {
    let quiet = SkillHitl { hitl_tools: vec![], phase_gate: false, checkpoints: vec![] };
    let gated = SkillHitl { hitl_tools: vec![], phase_gate: true, checkpoints: vec![] };
    assert!(!needs_approvals(&vec![]));
    assert!(!needs_approvals(&vec![SkillHitl { hitl_tools: vec![], phase_gate: false, checkpoints: vec![] }]));
    assert!(needs_approvals(&vec![quiet, gated]));
}

fn saved(kind: &InterruptKind) -> InterruptedState {
    interrupted_state(
        kind,
        "ap-1".to_string(),
        "{\"kind\":1}".to_string(),
        "[\"h\"]".to_string(),
        "[{\"id\":\"c1\"}]".to_string(),
        vec!["search".to_string()],
        Some("{}".to_string()),
    )
}

#[test]
fn tool_interrupt_keeps_pending_calls() {
    let kind = InterruptKind::ToolApproval { tool_name: "search".to_string(), args: serde_json::Value::Null };
    let state = saved(&kind);
    assert_eq!(state.approval_id_str(), "ap-1");
    assert!(matches!(state, InterruptedState::PendingToolCall { .. }));
    let inputs = resume_inputs(state);
    assert_eq!(inputs.history_json, "[\"h\"]");
    assert_eq!(inputs.pending_calls_json, "[{\"id\":\"c1\"}]");
    assert_eq!(inputs.active_tool_names, vec!["search".to_string()]);
    assert_eq!(inputs.skill_context_json, Some("{}".to_string()));
}

#[test]
fn checkpoint_interrupt_resumes_with_no_pending_calls() {
    let kind = InterruptKind::SkillCheckpoint { checkpoint_name: "review".to_string(), payload: serde_json::Value::Null };
    let state = saved(&kind);
    assert_eq!(state.approval_id_str(), "ap-1");
    assert!(matches!(state, InterruptedState::PendingCheckpoint { .. }));
    let inputs = resume_inputs(state);
    assert_eq!(inputs.history_json, "[\"h\"]");
    assert_eq!(inputs.pending_calls_json, "[]");
    assert_eq!(inputs.active_tool_names, vec!["search".to_string()]);
}

#[test]
fn phase_gate_state_reports_its_approval() {
    let state = InterruptedState::PendingPhaseGate {
        approval_id: "gate-7".to_string(),
        transition_json: "{}".to_string(),
    };
    assert_eq!(state.approval_id_str(), "gate-7");
}

#[test]
fn a_turn_records_only_an_answered_run() {
    match turn_step("hi", RunEnd::Answered { text: "hello".to_string() }, true) {
        (TurnStep::Record { user, assistant, longterm, answer }, agentverse::metrics::InvokeOutcome::Done) => {
            assert_eq!(user.as_text(), "hi");
            assert_eq!(user.role, MessageRole::User);
            assert_eq!(assistant.as_text(), "hello");
            assert_eq!(assistant.role, MessageRole::Assistant);
            assert_eq!(longterm.as_deref(), Some("User: hi\nAssistant: hello"));
            assert_eq!(answer, "hello");
        }
        _ => panic!("expected a record"),
    }
    assert!(matches!(
        turn_step("hi", RunEnd::Answered { text: "x".to_string() }, false),
        (TurnStep::Record { longterm: None, .. }, _)
    ));
    assert!(matches!(
        turn_step("hi", RunEnd::Interrupted { wire: "w".to_string() }, true),
        (TurnStep::Suspend { ref wire }, agentverse::metrics::InvokeOutcome::Interrupted) if wire == "w"
    ));
    assert!(matches!(turn_step("hi", RunEnd::Failed, true), (TurnStep::Abort, agentverse::metrics::InvokeOutcome::Error)));
}
