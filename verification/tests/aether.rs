use agentverse::aether::{
    aether_invoke_owner, agents_url, events_url, instance_url, interrupt_to_kind_and_prompt, map_decision,
    registration, suspend_payload, AetherApprovalDecision as A, ApprovalDecision as H, EnvelopeKind, InterruptKind as K,
    RegisterResponse, SuspendPayload,
};

fn obj(json: &str) -> serde_json::Value {
    serde_json::from_str(json).unwrap()
}

#[test]
fn aether_map_decision_covers_all_variants() {
    assert!(matches!(map_decision(A::Approved), H::Approved));
    assert!(matches!(map_decision(A::Rejected { reason: None }), H::Rejected { reason } if reason.is_empty()));
    assert!(matches!(map_decision(A::Rejected { reason: Some("no".into()) }), H::Rejected { reason } if reason == "no"));
    assert!(matches!(
        map_decision(A::Modified { payload: obj(r#"{"a":1}"#) }),
        H::Modified { new_args } if new_args == obj(r#"{"a":1}"#)
    ));
}

#[test]
fn routes_map_decision_covers_all_variants() {
    assert!(matches!(map_decision(A::Approved), H::Approved));
    assert!(matches!(map_decision(A::Rejected { reason: None }), H::Rejected { reason } if reason.is_empty()));
    assert!(matches!(map_decision(A::Rejected { reason: Some("no".into()) }), H::Rejected { reason } if reason == "no"));
    assert!(matches!(
        map_decision(A::Modified { payload: obj(r#"{"a":1}"#) }),
        H::Modified { new_args } if new_args == obj(r#"{"a":1}"#)
    ));
}

fn check_interrupt_tags() {
    let (kind, prompt) = interrupt_to_kind_and_prompt(&K::ToolApproval { tool_name: "echo".into(), args: obj(r#"{"t": "hi"}"#) });
    assert_eq!(kind, "tool_approval");
    assert!(prompt.contains("echo"));

    let (kind, _) = interrupt_to_kind_and_prompt(&K::PhaseGate {
        from_skill: "a".into(),
        to_skill: "b".into(),
        deliverable: "d".into(),
    });
    assert_eq!(kind, "phase_gate");

    let (kind, _) = interrupt_to_kind_and_prompt(&K::SkillCheckpoint { checkpoint_name: "cp".into(), payload: obj("{}") });
    assert_eq!(kind, "skill_checkpoint");
}

#[test]
fn aether_interrupt_maps_to_kind_tag_and_prompt() {
    check_interrupt_tags();
}

#[test]
fn routes_interrupt_maps_to_kind_tag_and_prompt() {
    check_interrupt_tags();
}

#[test]
fn interrupt_prompts_read_in_full() {
    let (_, p) = interrupt_to_kind_and_prompt(&K::ToolApproval { tool_name: "echo".into(), args: obj(r#"{"t":"hi"}"#) });
    assert_eq!(p, "Approve tool call `echo` with args {\"t\":\"hi\"}?");
    let (_, p) = interrupt_to_kind_and_prompt(&K::PhaseGate { from_skill: "a".into(), to_skill: "b".into(), deliverable: "d".into() });
    assert_eq!(p, "Approve phase transition a → b (deliverable: d)?");
    let (_, p) = interrupt_to_kind_and_prompt(&K::SkillCheckpoint { checkpoint_name: "cp".into(), payload: obj("{}") });
    assert_eq!(p, "Approve checkpoint `cp`.");
}

#[test]
fn suspend_payload_matches_fixture() {
    let fixture = r#"{
        "session_id": "7d9f1f0e-2b1a-4c7e-9f33-0c6f7f3f2a10",
        "approval_id": "3b0d6c1e-8f1a-4a55-a1a2-6b1f0d5e9c77",
        "kind": "tool_approval",
        "prompt": "Approve tool call `echo` with args {\"text\":\"hi\"}?"
    }"#;
    let expected: serde_json::Value = serde_json::from_str(fixture).unwrap();
    let p: SuspendPayload = suspend_payload(
        "7d9f1f0e-2b1a-4c7e-9f33-0c6f7f3f2a10".to_string(),
        "3b0d6c1e-8f1a-4a55-a1a2-6b1f0d5e9c77".to_string(),
        &K::ToolApproval { tool_name: "echo".into(), args: obj(r#"{"text":"hi"}"#) },
    );
    let mut actual = serde_json::Map::new();
    actual.insert("session_id".to_string(), serde_json::Value::String(p.session_id.clone()));
    actual.insert("approval_id".to_string(), serde_json::Value::String(p.approval_id.clone()));
    actual.insert("kind".to_string(), serde_json::Value::String(p.kind.clone()));
    actual.insert("prompt".to_string(), serde_json::Value::String(p.prompt.clone()));
    assert_eq!(serde_json::Value::Object(actual), expected);
}

#[test]
fn registry_urls_drop_trailing_slashes() {
    assert_eq!(agents_url("http://aether:8080//"), "http://aether:8080/registry/agents");
    assert_eq!(instance_url("http://aether:8080", "i-1"), "http://aether:8080/registry/instances/i-1");
    assert_eq!(events_url("http://aether:8080/", "i-1"), "http://aether:8080/registry/instances/i-1/events");
}

#[test]
fn registration_keeps_the_registry_answer() {
    let r = registration(RegisterResponse { instance_id: "i-9".to_string(), poll_interval_secs: 15 });
    assert_eq!(r.instance_id, "i-9");
    assert_eq!(r.poll_interval_secs, 15);
}

#[test]
fn aether_invoke_owner_defaults_and_refuses_other_kinds() {
    assert_eq!(aether_invoke_owner(EnvelopeKind::Invoke, None).unwrap(), "aether");
    assert_eq!(aether_invoke_owner(EnvelopeKind::Invoke, Some("bob".to_string())).unwrap(), "bob");
    assert_eq!(aether_invoke_owner(EnvelopeKind::Ping, None).unwrap_err(), "expected envelope kind: invoke");
}

#[test]
fn resume_ids_are_checked_in_order() {
    let req = |s: &str, a: &str| agentverse::aether::ResumeRequest {
        session_id: s.to_string(),
        approval_id: a.to_string(),
        decision: agentverse::aether::AetherApprovalDecision::Approved,
    };
    let sid = "67e55044-10b1-426f-9247-bb680e5fe0c8";
    let aid = "a1a2a3a4-b1b2-c1c2-d1d2-d3d4d5d6d7d8";
    match agentverse::aether::resume_ids(&req(sid, aid)) {
        Ok((s, a)) => {
            assert_eq!(s.to_string(), sid);
            assert_eq!(a.to_string(), aid);
        }
        Err(_) => panic!("both ids are valid"),
    }
    assert_eq!(agentverse::aether::resume_ids(&req("nope", "nope")).unwrap_err(), (400, "invalid session_id".to_string()));
    assert_eq!(agentverse::aether::resume_ids(&req(sid, "nope")).unwrap_err(), (400, "invalid approval_id".to_string()));
}
