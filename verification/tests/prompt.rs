use agentverse::error::{AgentError, ConfigError};
use agentverse::prompt::{
    prompt_file_kind, template_registry_name, Example, PromptConfig, PromptFile, PromptFileKind, PromptRegistry,
};

fn ex(input: &str) -> Example {
    Example { input: input.to_string(), output: Some("out".to_string()), strategy: None }
}

#[test]
fn default_registry_renders_builtin_templates() {
    let reg = PromptRegistry::new();
    let sys = reg.render("system", vec![]).unwrap();
    assert!(sys.starts_with("You are a helpful AI assistant."));
    assert!(sys.contains("Answer: <your answer>"));
    let with_tools = reg
        .render("system", vec![("tools".to_string(), serde_json::Value::String("calc".to_string()))])
        .unwrap();
    assert!(with_tools.contains("Available tools:\ncalc"));
    assert!(reg.render("router", vec![]).unwrap().contains("Respond with ONLY the strategy name."));
    assert!(!reg.has_react_template());
}

#[test]
fn missing_template_is_reported() {
    let reg = PromptRegistry::new();
    match reg.render("nope", vec![]) {
        Err(AgentError::Config(ConfigError::Invalid(m))) => assert!(m.starts_with("Template 'nope' not found: ")),
        other => panic!("unexpected {other:?}"),
    }
}

#[test]
fn added_template_replaces_and_broken_one_is_refused() {
    let mut reg = PromptRegistry::new();
    reg.add_template("system", "Hi {{ name }}").unwrap();
    let out = reg.render("system", vec![("name".to_string(), serde_json::Value::String("Ada".to_string()))]).unwrap();
    assert_eq!(out, "Hi Ada");
    match reg.add_template("bad", "{% if %}") {
        Err(AgentError::Config(ConfigError::Invalid(m))) => assert!(m.starts_with("Invalid template 'bad': ")),
        other => panic!("unexpected {other:?}"),
    }
    assert!(reg.render("bad", vec![]).is_err());
}

#[test]
fn refused_override_drops_a_builtin_template_only() {
    let mut reg = PromptRegistry::new();
    assert!(reg.add_template("router", "{% if %}").is_err());
    assert!(reg.render("router", vec![]).is_err());
    assert!(reg.render("system", vec![]).is_ok());
    reg.add_template("system", "Hello").unwrap();
    assert!(reg.add_template("system", "{% for %}").is_err());
    assert_eq!(reg.render("system", vec![]).unwrap(), "Hello");
    reg.add_template("router", "Back").unwrap();
    assert_eq!(reg.render("router", vec![]).unwrap(), "Back");
}

#[test]
fn examples_are_found_by_name() {
    let mut reg = PromptRegistry::new();
    assert!(reg.get_examples("react").is_none());
    reg.add_examples("react".to_string(), vec![ex("a")]);
    reg.add_examples("react".to_string(), vec![ex("b"), ex("c")]);
    let es = reg.get_examples("react").unwrap();
    assert_eq!(es.len(), 2);
    assert_eq!(es[0].input, "b");
}

#[test]
fn prompt_files_are_told_apart_by_extension() {
    assert_eq!(prompt_file_kind("react.j2"), PromptFileKind::Template { stem: "react".to_string() });
    assert_eq!(prompt_file_kind("a.b.toml"), PromptFileKind::Examples { stem: "a.b".to_string() });
    assert_eq!(prompt_file_kind(".j2"), PromptFileKind::Other);
    assert_eq!(prompt_file_kind("notes.txt"), PromptFileKind::Other);
    assert_eq!(prompt_file_kind("README"), PromptFileKind::Other);
}

#[test]
fn template_files_land_under_canonical_names() {
    assert_eq!(template_registry_name("plan_and_execute"), "strategies.plan_and_execute");
    assert_eq!(template_registry_name("hierarchical"), "strategies.hierarchical.decompose");
    assert_eq!(template_registry_name("react"), "react");
}

#[test]
fn from_config_applies_files_then_overrides() {
    let config = PromptConfig {
        system_prompt: Some("Override.".to_string()),
        prompts_dir: Some("prompts".to_string()),
        templates: vec![("greet".to_string(), "Hello".to_string())],
        examples: vec![("router".to_string(), vec![ex("q")])],
    };
    let files = vec![
        PromptFile::Template { stem: "react".to_string(), source: "React file.".to_string() },
        PromptFile::Template { stem: "plan_and_execute".to_string(), source: "Plan file.".to_string() },
    ];
    let reg = PromptRegistry::from_config(&config, files).unwrap();
    assert!(reg.has_react_template());
    assert_eq!(reg.render("react", vec![]).unwrap(), "React file.");
    assert_eq!(reg.render("strategies.plan_and_execute", vec![]).unwrap(), "Plan file.");
    assert_eq!(reg.render("system", vec![]).unwrap(), "Override.");
    assert_eq!(reg.render("greet", vec![]).unwrap(), "Hello");
    assert_eq!(reg.get_examples("router").unwrap().len(), 1);
}

#[test]
fn from_config_refuses_a_broken_file() {
    let config = PromptConfig::default();
    let files = vec![PromptFile::Template { stem: "x".to_string(), source: "{{".to_string() }];
    assert!(PromptRegistry::from_config(&config, files).is_err());
}
