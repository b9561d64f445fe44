//! Prompt templates and few-shot examples: the registry the strategies
//! render from, its built-in templates, and how a prompts directory
//! overrides them.

use crate::error::{AgentError, ConfigError};
use crate::text::{append_str, string_from_range, to_chars};
use vstd::prelude::*;

verus! {

/// A few-shot example for prompt templates. Strategy examples use
/// `output`; router examples use `strategy`.
#[derive(Debug, Clone, PartialEq)]
pub struct Example {
    /// The example input (user request).
    pub input: String,
    /// The example output (agent response).
    pub output: Option<String>,
    /// The example strategy.
    pub strategy: Option<String>,
}

/// An example's texts.
pub struct ExampleView {
    pub input: Seq<char>,
    pub output: Option<Seq<char>>,
    pub strategy: Option<Seq<char>>,
}

pub open spec fn opt_view(o: Option<String>) -> Option<Seq<char>> {
    match o {
        Some(s) => Some(s@),
        None => None,
    }
}

impl View for Example {
    type V = ExampleView;

    open spec fn view(&self) -> ExampleView {
        ExampleView { input: self.input@, output: opt_view(self.output), strategy: opt_view(self.strategy) }
    }
}

pub open spec fn example_views(es: Seq<Example>) -> Seq<ExampleView> {
    es.map_values(|e: Example| e@)
}

fn copy_text(o: &Option<String>) -> (c: Option<String>)
    ensures
        opt_view(c) == opt_view(*o),
{
    match o {
        Some(s) => Some(s.clone()),
        None => None,
    }
}

/// A copy of an example set with the same texts.
fn copy_examples(v: &Vec<Example>) -> (c: Vec<Example>)
    ensures
        example_views(c@) == example_views(v@),
{
    let mut c: Vec<Example> = Vec::new();
    let mut i: usize = 0;
    while i < v.len()
        invariant
            i <= v@.len(),
            example_views(c@) == example_views(v@).take(i as int),
        decreases v.len() - i,
    {
        let e = &v[i];
        let x = Example { input: e.input.clone(), output: copy_text(&e.output), strategy: copy_text(&e.strategy) };
        let ghost before = example_views(c@);
        c.push(x);
        assert(example_views(c@) =~= before.push(x@));
        assert(example_views(v@).take(i + 1) =~= example_views(v@).take(i as int).push(v@[i as int]@));
        i += 1;
    }
    assert(example_views(v@).take(v@.len() as int) =~= example_views(v@));
    c
}

/// Configuration for prompt registry loading.
#[derive(Debug, Default)]
pub struct PromptConfig {
    /// Optional system prompt override.
    pub system_prompt: Option<String>,
    /// Optional prompts directory for `.j2`/`.toml` file loading.
    pub prompts_dir: Option<String>,
    /// Additional templates to register (name, template source).
    pub templates: Vec<(String, String)>,
    /// Additional example sets to register (name, examples).
    pub examples: Vec<(String, Vec<Example>)>,
}

pub const DEFAULT_SYSTEM_TEMPLATE: &'static str = "You are a helpful AI assistant.\n\
     You are concise and accurate. Never claim to have done something you haven't.\n\
     If you don't know something, say so.\
     {% if tools %}\n\n\
     Available tools:\n\
     {{ tools }}\n\n\
     Always respond in this exact format:\n\
     Thought: <your reasoning>\n\
     Action: <tool_name>\n\
     Action Input: <json args>\n\n\
     When you have the final answer:\n\
     Thought: <your reasoning>\n\
     Answer: <final answer>\
     {% else %}\n\n\
     Always end your response with:\n\
     Answer: <your answer>\
     {% endif %}";

pub const DEFAULT_REACT_TEMPLATE: &'static str = "You solve tasks by reasoning step by step. When you need \
     information or need to take an action, call the appropriate tool directly \u{2014} tool calls are \
     handled natively, you never need to describe them as text.\n\n\
     {% if examples %}\n\
     Examples:\n\
     {% for example in examples %}\n\
     User: {{ example.input }}\n\
     Assistant: {{ example.output }}\n\
     {% endfor %}\n\
     {% endif %}\n\n\
     When you have a complete answer, respond with it directly.";

pub const DEFAULT_PLAN_AND_EXECUTE_TEMPLATE: &'static str = "You are a planning assistant. Generate a step-by-step plan.\n\n\
     Available tools:\n\
     {{ tools }}\n\n\
     {% if examples %}\n\
     Examples:\n\
     {% for example in examples %}\n\
     User: {{ example.input }}\n\
     Assistant: {{ example.output }}\n\
     {% endfor %}\n\
     {% endif %}\n\n\
     Respond with ONLY a JSON object. Rules:\n\
     - Each step has exactly one \"args\" object \u{2014} do not repeat the key\n\
     - Shell commands must use single quotes for quoting (e.g. grep '^pattern' not grep \"^pattern\")\n\
     - \"description\" values must not contain double-quote characters\n\
     {\"description\": \"...\", \"steps\": [{\"id\": 1, \"description\": \"...\", \"tool\": \"...\", \"args\": {}, \"depends_on\": []}]}\n\
     {% if conversation %}\n\
     Previous results:\n\
     {{ conversation }}\n\
     {% endif %}";

pub const DEFAULT_HIERARCHICAL_DECOMPOSE_TEMPLATE: &'static str = "Break this request into sub-goals. Each sub-goal should be independently executable.\n\n\
     {% if examples %}\n\
     Examples:\n\
     {% for example in examples %}\n\
     Input: {{ example.input }}\n\
     Strategy: {{ example.strategy }}\n\
     {% endfor %}\n\
     {% endif %}\n\n\
     Respond with ONLY a JSON array of strings.";

pub const DEFAULT_ROUTER_TEMPLATE: &'static str = "Choose the best orchestration strategy for this request.\n\n\
     Available strategies:\n\
     - react: simple Q&A, tool use, step-by-step reasoning\n\
     - plan_and_execute: tasks with clear upfront steps\n\
     - hierarchical: complex tasks needing decomposition\n\n\
     {% if examples %}\n\
     Examples:\n\
     {% for example in examples %}\n\
     Input: {{ example.input }}\n\
     Strategy: {{ example.strategy }}\n\
     {% endfor %}\n\
     {% endif %}\n\n\
     Respond with ONLY the strategy name.";

/// A minijinja template environment.
#[verifier::external_type_specification]
#[verifier::external_body]
pub struct ExEnvironment<'source>(minijinja::Environment<'source>);

/// The templates an environment holds: each name's source, and whether the
/// template is held borrowed (added with `add_template`) rather than owned
/// (added with `add_template_owned`).
pub uninterp spec fn env_templates(env: minijinja::Environment<'static>) -> Map<Seq<char>, (Seq<char>, bool)>;

/// Whether an environment is as `Environment::new` made it but for the
/// templates added since: default settings and no loader.
pub uninterp spec fn env_plain(env: minijinja::Environment<'static>) -> bool;

/// What compiling `source` as template `name` reports: nothing when the
/// template is well formed, else the parser's message.
pub uninterp spec fn template_syntax_error(name: Seq<char>, source: Seq<char>) -> Option<Seq<char>>;

/// What rendering template `name` with `context` gives from a plain
/// environment holding `templates`: the outer error when the template is
/// not found, else the rendered text or the renderer's message.
pub uninterp spec fn rendering(
    templates: Map<Seq<char>, (Seq<char>, bool)>,
    name: Seq<char>,
    context: Seq<(Seq<char>, serde_json::Value)>,
) -> Result<Result<Seq<char>, Seq<char>>, Seq<char>>;

/// The templates after `add_template(name, source)`: the template, held
/// borrowed, when it compiles; otherwise an owned template of that name is
/// dropped and a borrowed one stays.
pub open spec fn after_add_borrowed(m: Map<Seq<char>, (Seq<char>, bool)>, name: Seq<char>, source: Seq<char>) -> Map<
    Seq<char>,
    (Seq<char>, bool),
> {
    if template_syntax_error(name, source) is None {
        m.insert(name, (source, true))
    } else if m.contains_key(name) && m[name].1 {
        m
    } else {
        m.remove(name)
    }
}

/// The templates after `add_template_owned(name, source)`: the template,
/// owned, when it compiles; otherwise a borrowed template of that name is
/// dropped and an owned one stays.
pub open spec fn after_add_owned(m: Map<Seq<char>, (Seq<char>, bool)>, name: Seq<char>, source: Seq<char>) -> Map<
    Seq<char>,
    (Seq<char>, bool),
> {
    if template_syntax_error(name, source) is None {
        m.insert(name, (source, false))
    } else if m.contains_key(name) && m[name].1 {
        m.remove(name)
    } else {
        m
    }
}

/// An environment's templates before any is added.
pub open spec fn no_templates() -> Map<Seq<char>, (Seq<char>, bool)> {
    Map::empty()
}

/// `Environment::new`: no templates, default settings, no loader.
#[verifier::external_body]
fn new_environment() -> (fresh: minijinja::Environment<'static>)
    ensures
        env_templates(fresh) == no_templates(),
        env_plain(fresh),
{
    minijinja::Environment::new()
}

/// `Environment::add_template`: compiles `source` as template `name`, held
/// borrowed. It first drops an owned template of that name; on a compile
/// error it returns the parser's message and keeps a borrowed one.
#[verifier::external_body]
fn env_add_borrowed(env: &mut minijinja::Environment<'static>, name: &'static str, source: &'static str) -> (r: Result<
    (),
    String,
>)
    ensures
        env_templates(*final(env)) == after_add_borrowed(env_templates(*old(env)), name@, source@),
        env_plain(*final(env)) == env_plain(*old(env)),
        match r {
            Ok(()) => template_syntax_error(name@, source@) is None,
            Err(e) => template_syntax_error(name@, source@) == Some(e@),
        },
{
    env.add_template(name, source).map_err(|e| e.to_string())
}

/// `Environment::add_template_owned`: compiles `source` as template `name`,
/// owned. It first drops a borrowed template of that name; on a compile
/// error it returns the parser's message and keeps an owned one.
#[verifier::external_body]
fn env_add_owned(env: &mut minijinja::Environment<'static>, name: &str, source: &str) -> (r: Result<(), String>)
    ensures
        env_templates(*final(env)) == after_add_owned(env_templates(*old(env)), name@, source@),
        env_plain(*final(env)) == env_plain(*old(env)),
        match r {
            Ok(()) => template_syntax_error(name@, source@) is None,
            Err(e) => template_syntax_error(name@, source@) == Some(e@),
        },
{
    env.add_template_owned(name.to_string(), source.to_string()).map_err(|e| e.to_string())
}

/// `Environment::get_template`, then `Template::render` with the context as
/// a map of `Value::from_serialize` values. In a plain environment (no
/// loader) a template is found exactly when the environment holds it.
#[verifier::external_body]
fn env_render(
    env: &minijinja::Environment<'static>,
    name: &str,
    context: &Vec<(String, serde_json::Value)>,
) -> (r: Result<Result<String, String>, String>)
    requires
        env_plain(*env),
    ensures
        (r is Err) <==> !env_templates(*env).contains_key(name@),
        match r {
            Ok(Ok(s)) => rendering(env_templates(*env), name@, context_view(context@)) == Ok::<
                Result<Seq<char>, Seq<char>>,
                Seq<char>,
            >(Ok(s@)),
            Ok(Err(e)) => rendering(env_templates(*env), name@, context_view(context@)) == Ok::<
                Result<Seq<char>, Seq<char>>,
                Seq<char>,
            >(Err(e@)),
            Err(e) => rendering(env_templates(*env), name@, context_view(context@)) == Err::<
                Result<Seq<char>, Seq<char>>,
                Seq<char>,
            >(e@),
        },
{
    let tmpl = match env.get_template(name) {
        Ok(t) => t,
        Err(e) => return Err(e.to_string()),
    };
    let ctx = minijinja::Value::from_iter(
        context.iter().map(|(k, v)| (k.clone(), minijinja::Value::from_serialize(v))),
    );
    Ok(tmpl.render(ctx).map_err(|e| e.to_string()))
}

pub open spec fn context_view(cs: Seq<(String, serde_json::Value)>) -> Seq<(Seq<char>, serde_json::Value)> {
    cs.map_values(|c: (String, serde_json::Value)| (c.0@, c.1))
}

/// Templates by name and example sets by name.
pub struct PromptRegistry {
    env: minijinja::Environment<'static>,
    examples: Vec<(String, Vec<Example>)>,
    /// Whether a `react` template was loaded from a prompts directory, so
    /// that the cycle primes a one-time preamble from it.
    react_template_loaded: bool,
}

impl PromptRegistry {
    #[verifier::type_invariant]
    closed spec fn plain_environment(self) -> bool {
        env_plain(self.env)
    }
}

#[verifier::ext_equal]
pub struct PromptView {
    /// Each template's source by name, and whether it is a built-in one
    /// still held borrowed.
    pub templates: Map<Seq<char>, (Seq<char>, bool)>,
    /// Every example set registered, in order; the last of a name counts.
    pub examples: Seq<(Seq<char>, Seq<ExampleView>)>,
    pub react_template_loaded: bool,
}

impl View for PromptRegistry {
    type V = PromptView;

    closed spec fn view(&self) -> PromptView {
        PromptView {
            templates: env_templates(self.env),
            examples: self.examples@.map_values(|e: (String, Vec<Example>)| (e.0@, example_views(e.1@))),
            react_template_loaded: self.react_template_loaded,
        }
    }
}

/// The example set registered last under `name`.
pub open spec fn example_lookup(es: Seq<(Seq<char>, Seq<ExampleView>)>, name: Seq<char>) -> Option<Seq<ExampleView>>
    decreases es.len(),
{
    if es.len() == 0 {
        None
    } else if es.last().0 == name {
        Some(es.last().1)
    } else {
        example_lookup(es.drop_last(), name)
    }
}

/// The built-in templates, added in this order, each held borrowed.
pub open spec fn default_templates() -> Map<Seq<char>, (Seq<char>, bool)> {
    let m1 = after_add_borrowed(no_templates(), "react"@, DEFAULT_REACT_TEMPLATE@);
    let m2 = after_add_borrowed(m1, "system"@, DEFAULT_SYSTEM_TEMPLATE@);
    let m3 = after_add_borrowed(m2, "strategies.react"@, DEFAULT_REACT_TEMPLATE@);
    let m4 = after_add_borrowed(m3, "strategies.plan_and_execute"@, DEFAULT_PLAN_AND_EXECUTE_TEMPLATE@);
    let m5 = after_add_borrowed(m4, "strategies.hierarchical.decompose"@, DEFAULT_HIERARCHICAL_DECOMPOSE_TEMPLATE@);
    after_add_borrowed(m5, "router"@, DEFAULT_ROUTER_TEMPLATE@)
}

/// The refusal of a template whose syntax is broken.
pub open spec fn invalid_template(e: AgentError, name: Seq<char>, source: Seq<char>) -> bool {
    e matches AgentError::Config(ConfigError::Invalid(m)) && m@ == "Invalid template '"@ + name + "': "@
        + template_syntax_error(name, source)->0
}

/// Which kind of file of a prompts directory a file name denotes.
#[derive(Debug, PartialEq, Eq)]
pub enum PromptFileKind {
    /// A `.j2` template; `stem` is the name before the extension.
    Template { stem: String },
    /// A `.toml` example set.
    Examples { stem: String },
    /// Anything else, which is ignored.
    Other,
}

/// The position of the last `.` in a file name, if any.
pub open spec fn last_dot(f: Seq<char>) -> int
    decreases f.len(),
{
    if f.len() == 0 {
        -1
    } else if f.last() == '.' {
        f.len() - 1
    } else {
        last_dot(f.drop_last())
    }
}

/// The stem and extension of a file name as `Path` splits it: at the last
/// `.`, unless that dot is the first character.
pub open spec fn stem_and_extension(f: Seq<char>) -> (Seq<char>, Option<Seq<char>>) {
    let k = last_dot(f);
    if k <= 0 {
        (f, None)
    } else {
        (f.subrange(0, k), Some(f.subrange(k + 1, f.len() as int)))
    }
}

pub open spec fn spec_file_kind_is(k: PromptFileKind, f: Seq<char>) -> bool {
    let (stem, ext) = stem_and_extension(f);
    if ext == Some("j2"@) {
        k matches PromptFileKind::Template { stem: s } && s@ == stem
    } else if ext == Some("toml"@) {
        k matches PromptFileKind::Examples { stem: s } && s@ == stem
    } else {
        k is Other
    }
}

proof fn lemma_last_dot(f: Seq<char>)
    ensures
        -1 <= last_dot(f) < f.len(),
        last_dot(f) >= 0 ==> f[last_dot(f)] == '.',
        forall|j: int| last_dot(f) < j < f.len() ==> f[j] != '.',
    decreases f.len(),
{
    if f.len() > 0 && f.last() != '.' {
        lemma_last_dot(f.drop_last());
        assert forall|j: int| last_dot(f) < j < f.len() implies f[j] != '.' by {
            if j < f.len() - 1 {
                assert(f[j] == f.drop_last()[j]);
            }
        }
    }
}

/// The kind of a file found in a prompts directory, by its extension.
pub fn prompt_file_kind(file_name: &str) -> (k: PromptFileKind)
    ensures
        spec_file_kind_is(k, file_name@),
{
    let v = to_chars(file_name);
    let mut i = v.len();
    assert(v@.subrange(0, i as int) =~= v@);
    while i > 0 && v[i - 1] != '.'
        invariant
            i <= v@.len(),
            v@ == file_name@,
            last_dot(v@) == last_dot(v@.subrange(0, i as int)),
        decreases i,
    {
        assert(v@.subrange(0, i as int).drop_last() =~= v@.subrange(0, i - 1));
        i -= 1;
    }
    // i - 1 is the last dot, or i == 0 when there is none
    if i <= 1 {
        return PromptFileKind::Other;
    }
    let ext = string_from_range(&v, i, v.len());
    let stem = string_from_range(&v, 0, i - 1);
    let j2 = String::from_str("j2");
    let toml = String::from_str("toml");
    proof {
        reveal_strlit("j2");
        reveal_strlit("toml");
    }
    if ext == j2 {
        PromptFileKind::Template { stem }
    } else if ext == toml {
        PromptFileKind::Examples { stem }
    } else {
        PromptFileKind::Other
    }
}

/// The registry name a template file's stem lands under: the short names
/// of the strategy templates map to their canonical keys.
pub open spec fn registry_name(stem: Seq<char>) -> Seq<char> {
    if stem == "plan_and_execute"@ {
        "strategies.plan_and_execute"@
    } else if stem == "hierarchical"@ {
        "strategies.hierarchical.decompose"@
    } else {
        stem
    }
}

pub fn template_registry_name(stem: &str) -> (s: String)
    ensures
        s@ == registry_name(stem@),
{
    let s = String::from_str(stem);
    let pe = String::from_str("plan_and_execute");
    let h = String::from_str("hierarchical");
    if s == pe {
        String::from_str("strategies.plan_and_execute")
    } else if s == h {
        String::from_str("strategies.hierarchical.decompose")
    } else {
        s
    }
}

/// A file read from a prompts directory: a template's source, or an
/// example set already parsed from its `[[example]]` tables.
pub enum PromptFile {
    Template { stem: String, source: String },
    Examples { stem: String, examples: Vec<Example> },
}

impl PromptRegistry {
    /// The built-in templates, held borrowed, and no example sets. (A
    /// built-in template that did not compile would be left out.)
    pub fn new() -> (r: Self)
        ensures
            r@.templates == default_templates(),
            r@.examples.len() == 0,
            !r@.react_template_loaded,
    {
        let mut env = new_environment();
        let _ = env_add_borrowed(&mut env, "react", DEFAULT_REACT_TEMPLATE);
        let _ = env_add_borrowed(&mut env, "system", DEFAULT_SYSTEM_TEMPLATE);
        let _ = env_add_borrowed(&mut env, "strategies.react", DEFAULT_REACT_TEMPLATE);
        let _ = env_add_borrowed(&mut env, "strategies.plan_and_execute", DEFAULT_PLAN_AND_EXECUTE_TEMPLATE);
        let _ = env_add_borrowed(
            &mut env,
            "strategies.hierarchical.decompose",
            DEFAULT_HIERARCHICAL_DECOMPOSE_TEMPLATE,
        );
        let _ = env_add_borrowed(&mut env, "router", DEFAULT_ROUTER_TEMPLATE);
        let r = PromptRegistry { env, examples: Vec::new(), react_template_loaded: false };
        assert(r@.examples =~= Seq::<(Seq<char>, Seq<ExampleView>)>::empty());
        r
    }

    /// Registers a template under `name`, owned, replacing any of that name.
    /// Refused when the template's syntax is broken; a built-in template of
    /// that name still held borrowed is then dropped, and nothing else changes.
    pub fn add_template(&mut self, name: &str, template: &str) -> (r: Result<(), AgentError>)
        ensures
            final(self)@ == (PromptView {
                templates: after_add_owned(old(self)@.templates, name@, template@),
                ..old(self)@
            }),
            template_syntax_error(name@, template@) is None ==> r is Ok && final(self)@.templates[name@] == (
            template@,
            false,
            ),
            template_syntax_error(name@, template@) is Some ==> (r matches Err(e) && invalid_template(
                e,
                name@,
                template@,
            )),
    {
        proof {
            use_type_invariant(&*self);
        }
        let mut env = new_environment();
        std::mem::swap(&mut env, &mut self.env);
        let r = env_add_owned(&mut env, name, template);
        self.env = env;
        assert(final(self)@ =~= (PromptView {
            templates: after_add_owned(old(self)@.templates, name@, template@),
            ..old(self)@
        }));
        match r {
            Ok(()) => Ok(()),
            Err(e) => {
                let mut m = String::from_str("Invalid template '");
                append_str(&mut m, name);
                append_str(&mut m, "': ");
                append_str(&mut m, e.as_str());
                Err(AgentError::Config(ConfigError::Invalid(m)))
            },
        }
    }

    /// Registers an example set under `name`, replacing any of that name.
    pub fn add_examples(&mut self, name: String, examples: Vec<Example>)
        ensures
            final(self)@ == (PromptView {
                examples: old(self)@.examples.push((name@, example_views(examples@))),
                ..old(self)@
            }),
            example_lookup(final(self)@.examples, name@) == Some(example_views(examples@)),
    {
        proof {
            use_type_invariant(&*self);
        }
        let ghost n = name@;
        let ghost ex = example_views(examples@);
        let mut es: Vec<(String, Vec<Example>)> = Vec::new();
        std::mem::swap(&mut es, &mut self.examples);
        es.push((name, examples));
        self.examples = es;
        assert(self@.examples =~= old(self)@.examples.push((n, ex)));
        assert(final(self)@ =~= (PromptView { examples: old(self)@.examples.push((n, ex)), ..old(self)@ }));
    }

    /// Renders template `name` with `context`.
    pub fn render(&self, name: &str, context: Vec<(String, serde_json::Value)>) -> (r: Result<String, AgentError>)
        ensures
            match rendering(self@.templates, name@, context_view(context@)) {
                Ok(Ok(s)) => r matches Ok(t) && t@ == s,
                Ok(Err(e)) => r matches Err(AgentError::Config(ConfigError::Invalid(m))) && m@
                    == "Template render error: "@ + e,
                Err(e) => r matches Err(AgentError::Config(ConfigError::Invalid(m))) && m@
                    == "Template '"@ + name@ + "' not found: "@ + e,
            },
            !self@.templates.contains_key(name@) <==> rendering(self@.templates, name@, context_view(context@)) is Err,
    {
        proof {
            use_type_invariant(self);
        }
        match env_render(&self.env, name, &context) {
            Ok(Ok(s)) => Ok(s),
            Ok(Err(e)) => {
                let mut m = String::from_str("Template render error: ");
                append_str(&mut m, e.as_str());
                Err(AgentError::Config(ConfigError::Invalid(m)))
            },
            Err(e) => {
                let mut m = String::from_str("Template '");
                append_str(&mut m, name);
                append_str(&mut m, "' not found: ");
                append_str(&mut m, e.as_str());
                Err(AgentError::Config(ConfigError::Invalid(m)))
            },
        }
    }

    /// The example set registered under `name`.
    pub fn get_examples(&self, name: &str) -> (r: Option<&[Example]>)
        ensures
            match r {
                Some(es) => example_lookup(self@.examples, name@) == Some(example_views(es@)),
                None => example_lookup(self@.examples, name@) is None,
            },
    {
        let k = String::from_str(name);
        let ghost all = self@.examples;
        let mut i = self.examples.len();
        assert(all.take(i as int) =~= all);
        while i > 0
            invariant
                i <= self.examples@.len(),
                k@ == name@,
                all == self@.examples,
                example_lookup(all, name@) == example_lookup(all.take(i as int), name@),
            decreases i,
        {
            assert(all.take(i as int).last() == (self.examples@[i - 1].0@, example_views(self.examples@[i - 1].1@)));
            assert(all.take(i as int).drop_last() =~= all.take(i - 1));
            if self.examples[i - 1].0 == k {
                return Some(self.examples[i - 1].1.as_slice());
            }
            i -= 1;
        }
        None
    }

    /// Whether a `react` template came from a prompts directory.
    pub fn has_react_template(&self) -> (b: bool)
        ensures
            b == self@.react_template_loaded,
    {
        self.react_template_loaded
    }

    /// Takes in one file of a prompts directory: a template lands under its
    /// registry name (a `react` template also marks the preamble as
    /// loaded), an example set under its stem.
    pub fn load_file(&mut self, file: PromptFile) -> (r: Result<(), AgentError>)
        ensures
            match file_step(Loaded::Ready(old(self)@), file) {
                Loaded::Ready(v) => r is Ok && final(self)@ == v,
                Loaded::Refused(n, s) => r matches Err(e) && invalid_template(e, n, s) && final(self)@
                    == (PromptView { templates: after_add_owned(marked(old(self)@, file).templates, n, s), ..marked(old(self)@, file) }),
            },
    {
        proof {
            use_type_invariant(&*self);
        }
        match file {
            PromptFile::Template { stem, source } => {
                let react = String::from_str("react");
                if stem == react {
                    self.react_template_loaded = true;
                }
                let name = template_registry_name(stem.as_str());
                let r = self.add_template(name.as_str(), source.as_str());
                assert(r is Ok ==> final(self)@ =~= view_of(file_step(Loaded::Ready(old(self)@), file)));
                r
            },
            PromptFile::Examples { stem, examples } => {
                self.add_examples(stem, examples);
                assert(final(self)@ =~= view_of(file_step(Loaded::Ready(old(self)@), file)));
                Ok(())
            },
        }
    }

    /// A registry from its configuration: the built-in templates, then the
    /// files of the prompts directory in the order given, then the extra
    /// templates and example sets, then the system prompt as the `system`
    /// template. The first broken template refuses the whole.
    pub fn from_config(config: &PromptConfig, dir_files: Vec<PromptFile>) -> (r: Result<Self, AgentError>)
        ensures
            match spec_from_config(*config, dir_files@) {
                Loaded::Ready(v) => r matches Ok(reg) && reg@ == v,
                Loaded::Refused(name, source) => r matches Err(e) && invalid_template(e, name, source),
            },
    {
        let mut reg = PromptRegistry::new();
        assert(reg@ =~= new_view());
        let ghost start = reg@;
        let ghost all = dir_files@;
        for f in it: dir_files
            invariant
                it.seq() == all,
                start == new_view(),
                load_files(Loaded::Ready(start), all.take(it.index() as int)) == Loaded::Ready(reg@),
        {
            let ghost i = it.index() as int;
            let ghost before = reg@;
            let ghost fv = f;
            assert(all.take(i + 1).drop_last() =~= all.take(i));
            assert(all.take(i + 1).last() == f);
            match reg.load_file(f) {
                Ok(()) => {},
                Err(e) => {
                    proof {
                        lemma_refused_stays(load_files(Loaded::Ready(start), all.take(i + 1)), all, i + 1, config.templates@, config.examples@, config.system_prompt);
                    }
                    return Err(e);
                },
            }
            assert(load_files(Loaded::Ready(start), all.take(i + 1)) == file_step(Loaded::Ready(before), fv));
        }
        assert(all.take(all.len() as int) =~= all);
        let mut i: usize = 0;
        while i < config.templates.len()
            invariant
                i <= config.templates@.len(),
                all == dir_files@,
                add_templates(load_files(Loaded::Ready(new_view()), all), config.templates@.take(i as int)) == Loaded::Ready(reg@),
            decreases config.templates.len() - i,
        {
            let ghost before = reg@;
            assert(config.templates@.take(i + 1).drop_last() =~= config.templates@.take(i as int));
            assert(config.templates@.take(i + 1).last() == config.templates@[i as int]);
            match reg.add_template(config.templates[i].0.as_str(), config.templates[i].1.as_str()) {
                Ok(()) => {},
                Err(e) => {
                    proof {
                        let l0 = load_files(Loaded::Ready(new_view()), all);
                        let n = config.templates@[i as int].0@;
                        let src = config.templates@[i as int].1@;
                        assert(add_templates(l0, config.templates@.take(i + 1)) == add_template_step(Loaded::Ready(before), n, src));
                        assert(add_templates(l0, config.templates@.take(i + 1)) == Loaded::Refused(n, src));
                        lemma_templates_refused(l0, config.templates@, i as int + 1);
                        lemma_examples_keep_refusal(add_templates(l0, config.templates@), config.examples@);
                        assert(spec_from_config(*config, all) == Loaded::Refused(n, src));
                    }
                    return Err(e);
                },
            }
            i += 1;
        }
        assert(config.templates@.take(config.templates@.len() as int) =~= config.templates@);
        let ghost after_templates = add_templates(load_files(Loaded::Ready(new_view()), all), config.templates@);
        let mut j: usize = 0;
        while j < config.examples.len()
            invariant
                j <= config.examples@.len(),
                all == dir_files@,
                after_templates == add_templates(load_files(Loaded::Ready(new_view()), all), config.templates@),
                add_example_sets(after_templates, config.examples@.take(j as int)) == Loaded::Ready(reg@),
            decreases config.examples.len() - j,
        {
            assert(config.examples@.take(j + 1).drop_last() =~= config.examples@.take(j as int));
            reg.add_examples(config.examples[j].0.clone(), copy_examples(&config.examples[j].1));
            j += 1;
        }
        assert(config.examples@.take(config.examples@.len() as int) =~= config.examples@);
        match &config.system_prompt {
            Some(sp) => {
                match reg.add_template("system", sp.as_str()) {
                    Ok(()) => {},
                    Err(e) => {
                        return Err(e);
                    },
                }
            },
            None => {},
        }
        Ok(reg)
    }
}

/// Where loading stands: a registry so far, or the template that refused it.
pub enum Loaded {
    Ready(PromptView),
    Refused(Seq<char>, Seq<char>),
}

pub open spec fn view_of(l: Loaded) -> PromptView {
    match l {
        Loaded::Ready(v) => v,
        Loaded::Refused(..) => arbitrary(),
    }
}

pub open spec fn new_view() -> PromptView {
    PromptView { templates: default_templates(), examples: seq![], react_template_loaded: false }
}

/// One template more, unless loading was already refused.
pub open spec fn add_template_step(l: Loaded, name: Seq<char>, source: Seq<char>) -> Loaded {
    match l {
        Loaded::Refused(..) => l,
        Loaded::Ready(v) => if template_syntax_error(name, source) is None {
            Loaded::Ready(PromptView { templates: v.templates.insert(name, (source, false)), ..v })
        } else {
            Loaded::Refused(name, source)
        },
    }
}

pub open spec fn add_examples_step(l: Loaded, name: Seq<char>, examples: Seq<ExampleView>) -> Loaded {
    match l {
        Loaded::Refused(..) => l,
        Loaded::Ready(v) => Loaded::Ready(PromptView { examples: v.examples.push((name, examples)), ..v }),
    }
}

/// The registry once a template file is taken in: a `react` template
/// marks the preamble as loaded.
pub open spec fn marked(v: PromptView, f: PromptFile) -> PromptView {
    match f {
        PromptFile::Template { stem, .. } => PromptView {
            react_template_loaded: v.react_template_loaded || stem@ == "react"@,
            ..v
        },
        PromptFile::Examples { .. } => v,
    }
}

pub open spec fn file_step(l: Loaded, f: PromptFile) -> Loaded {
    match f {
        PromptFile::Template { stem, source } => match l {
            Loaded::Refused(..) => l,
            Loaded::Ready(v) => add_template_step(
                Loaded::Ready(PromptView { react_template_loaded: v.react_template_loaded || stem@ == "react"@, ..v }),
                registry_name(stem@),
                source@,
            ),
        },
        PromptFile::Examples { stem, examples } => add_examples_step(l, stem@, example_views(examples@)),
    }
}

pub open spec fn load_files(l: Loaded, fs: Seq<PromptFile>) -> Loaded
    decreases fs.len(),
{
    if fs.len() == 0 {
        l
    } else {
        file_step(load_files(l, fs.drop_last()), fs.last())
    }
}

pub open spec fn add_templates(l: Loaded, ts: Seq<(String, String)>) -> Loaded
    decreases ts.len(),
{
    if ts.len() == 0 {
        l
    } else {
        add_template_step(add_templates(l, ts.drop_last()), ts.last().0@, ts.last().1@)
    }
}

pub open spec fn add_example_sets(l: Loaded, es: Seq<(String, Vec<Example>)>) -> Loaded
    decreases es.len(),
{
    if es.len() == 0 {
        l
    } else {
        add_examples_step(add_example_sets(l, es.drop_last()), es.last().0@, example_views(es.last().1@))
    }
}

pub open spec fn spec_from_config(config: PromptConfig, files: Seq<PromptFile>) -> Loaded {
    let l = add_example_sets(add_templates(load_files(Loaded::Ready(new_view()), files), config.templates@), config.examples@);
    match config.system_prompt {
        Some(sp) => add_template_step(l, "system"@, sp@),
        None => l,
    }
}

proof fn lemma_files_refused(l: Loaded, fs: Seq<PromptFile>, k: int)
    requires
        0 <= k <= fs.len(),
        load_files(l, fs.take(k)) is Refused,
    ensures
        load_files(l, fs) == load_files(l, fs.take(k)),
    decreases fs.len() - k,
{
    if k < fs.len() {
        assert(fs.take(k + 1).drop_last() =~= fs.take(k));
        lemma_files_refused(l, fs, k + 1);
    } else {
        assert(fs.take(k) =~= fs);
    }
}

proof fn lemma_templates_refused(l: Loaded, ts: Seq<(String, String)>, k: int)
    requires
        0 <= k <= ts.len(),
        add_templates(l, ts.take(k)) is Refused,
    ensures
        add_templates(l, ts) == add_templates(l, ts.take(k)),
    decreases ts.len() - k,
{
    if k < ts.len() {
        assert(ts.take(k + 1).drop_last() =~= ts.take(k));
        lemma_templates_refused(l, ts, k + 1);
    } else {
        assert(ts.take(k) =~= ts);
    }
}

proof fn lemma_refused_templates(l: Loaded, ts: Seq<(String, String)>)
    requires
        l is Refused,
    ensures
        add_templates(l, ts) == l,
    decreases ts.len(),
{
    if ts.len() > 0 {
        lemma_refused_templates(l, ts.drop_last());
    }
}

proof fn lemma_examples_keep_refusal(l: Loaded, es: Seq<(String, Vec<Example>)>)
    requires
        l is Refused,
    ensures
        add_example_sets(l, es) == l,
    decreases es.len(),
{
    if es.len() > 0 {
        lemma_examples_keep_refusal(l, es.drop_last());
    }
}

proof fn lemma_refused_stays(
    l: Loaded,
    all: Seq<PromptFile>,
    k: int,
    ts: Seq<(String, String)>,
    es: Seq<(String, Vec<Example>)>,
    system: Option<String>,
)
    requires
        0 <= k <= all.len(),
        l == load_files(Loaded::Ready(new_view()), all.take(k)),
        l is Refused,
    ensures
        load_files(Loaded::Ready(new_view()), all) == l,
        add_templates(l, ts) == l,
        add_example_sets(l, es) == l,
{
    lemma_files_refused(Loaded::Ready(new_view()), all, k);
    lemma_refused_templates(l, ts);
    lemma_examples_keep_refusal(l, es);
}

} // verus!
