use agentverse::routing::parse_phase_transition;

#[test]
fn routing_parses_both_directives() {
    let output = "Extracted facts.\n\nNEXT_SKILL: analyzer\nSUMMARY: Found 3 entities; dates span 2020–2023.";
    let t = parse_phase_transition(output).unwrap();
    assert_eq!(t.next_skill, "analyzer");
    assert_eq!(t.summary, "Found 3 entities; dates span 2020–2023.");
    assert_eq!(t.deliverable, "Extracted facts.");
}

#[test]
fn routing_returns_none_when_no_directives() {
    let output = "Final summary. No directives here.";
    assert!(parse_phase_transition(output).is_none());
}

#[test]
fn routing_returns_none_when_only_next_skill() {
    let output = "Some output.\nNEXT_SKILL: analyzer";
    assert!(parse_phase_transition(output).is_none());
}

#[test]
fn routing_returns_none_when_only_summary() {
    let output = "Some output.\nSUMMARY: did something";
    assert!(parse_phase_transition(output).is_none());
}

#[test]
fn routing_handles_trailing_whitespace() {
    let output = "body\nNEXT_SKILL: writer  \nSUMMARY: Done.  \n  ";
    let t = parse_phase_transition(output).unwrap();
    assert_eq!(t.next_skill, "writer");
    assert_eq!(t.summary, "Done.");
}

#[test]
fn routing_strips_directives_from_deliverable() {
    let output = "Line one.\nLine two.\nNEXT_SKILL: b\nSUMMARY: summary text";
    let t = parse_phase_transition(output).unwrap();
    assert_eq!(t.deliverable, "Line one.\nLine two.");
}

#[test]
fn routing_returns_none_when_deliverable_is_empty() {
    // Directives only, no body at all
    assert!(parse_phase_transition("NEXT_SKILL: analyzer\nSUMMARY: done").is_none());
    // Only blank lines before directives
    assert!(parse_phase_transition("\n  \n\nNEXT_SKILL: analyzer\nSUMMARY: done").is_none());
}

#[test]
fn routing_tests_parses_both_directives() {
    let output = "Extracted facts.\n\nNEXT_SKILL: analyzer\nSUMMARY: Found 3 entities; dates span 2020–2023.";
    let t = parse_phase_transition(output).unwrap();
    assert_eq!(t.next_skill, "analyzer");
    assert_eq!(t.summary, "Found 3 entities; dates span 2020–2023.");
    assert_eq!(t.deliverable, "Extracted facts.");
}

#[test]
fn routing_tests_returns_none_when_no_directives() {
    let output = "Final summary. No directives here.";
    assert!(parse_phase_transition(output).is_none());
}

#[test]
fn routing_tests_returns_none_when_only_next_skill() {
    let output = "Some output.\nNEXT_SKILL: analyzer";
    assert!(parse_phase_transition(output).is_none());
}

#[test]
fn routing_tests_returns_none_when_only_summary() {
    let output = "Some output.\nSUMMARY: did something";
    assert!(parse_phase_transition(output).is_none());
}

#[test]
fn routing_tests_handles_trailing_whitespace() {
    let output = "body\nNEXT_SKILL: writer  \nSUMMARY: Done.  \n  ";
    let t = parse_phase_transition(output).unwrap();
    assert_eq!(t.next_skill, "writer");
    assert_eq!(t.summary, "Done.");
}

#[test]
fn routing_tests_strips_directives_from_deliverable() {
    let output = "Line one.\nLine two.\nNEXT_SKILL: b\nSUMMARY: summary text";
    let t = parse_phase_transition(output).unwrap();
    assert_eq!(t.deliverable, "Line one.\nLine two.");
}

#[test]
fn routing_tests_returns_none_when_deliverable_is_empty() {
    // Directives only, no body at all
    assert!(parse_phase_transition("NEXT_SKILL: analyzer\nSUMMARY: done").is_none());
    // Only blank lines before directives
    assert!(parse_phase_transition("\n  \n\nNEXT_SKILL: analyzer\nSUMMARY: done").is_none());
}

#[test]
fn phase_output_parses_back_to_its_parts() {
    let deliverable = "First line.\nSecond line.";
    let output = format!("{deliverable}\nNEXT_SKILL: editor\nSUMMARY: Two lines written.");
    let t = parse_phase_transition(&output).unwrap();
    assert_eq!(t.deliverable, deliverable);
    assert_eq!(t.next_skill, "editor");
    assert_eq!(t.summary, "Two lines written.");
}

#[test]
fn directives_separated_by_blank_lines_still_parse() {
    let t = parse_phase_transition("Body.\nNEXT_SKILL: x\n\n  \nSUMMARY: y\n\n").unwrap();
    assert_eq!(t.next_skill, "x");
    assert_eq!(t.summary, "y");
    assert_eq!(t.deliverable, "Body.");
}

#[test]
fn empty_directive_values_are_refused() {
    assert!(parse_phase_transition("Body.\nNEXT_SKILL:   \nSUMMARY: y").is_none());
    assert!(parse_phase_transition("Body.\nNEXT_SKILL: x\nSUMMARY:").is_none());
}

#[test]
fn directives_in_wrong_order_are_refused() {
    assert!(parse_phase_transition("Body.\nSUMMARY: y\nNEXT_SKILL: x").is_none());
}

#[test]
fn crlf_lines_are_read_like_lf_lines() {
    let t = parse_phase_transition("Body one.\r\nBody two.\r\nNEXT_SKILL: x\r\nSUMMARY: y\r\n").unwrap();
    assert_eq!(t.deliverable, "Body one.\nBody two.");
    assert_eq!(t.next_skill, "x");
    assert_eq!(t.summary, "y");
}
