# agentverse

The decision logic of an LLM agent framework, written in Verus and proved
against its contracts: provider request building and reply parsing
(OpenAI-compatible, Anthropic, Gemini), retry and circuit-breaker policy,
skill routing and phase transitions, prompt registry, turn cache,
short-term memory, human-in-the-loop bookkeeping and the Aether wire
envelopes.

Layout:

- `src/` — the verified library. Calls into outside crates (serde_json,
  uuid, reqwest header validation, minijinja, std time) go through small
  trusted wrappers whose contracts are stated next to them.
- `tests/` — ordinary Rust tests of the library.
- `app/` — the unverified shell: HTTP clients and server, file loading,
  serde wire types, OpenTelemetry instruments.

What is not here: the `Agent` type, its builder, the HTTP routes and the
background workers' loops. They drive the session, skill, human-approval,
tool and strategy crates of the same workspace, which are not available to
this build. The decisions they take are in `src/` (message assembly, tool
selection, phase steps, resume plans, the turn step, the consolidation
plan, retention cut-offs), and `app/` drives the model calls.

Providers: `src/` speaks the three built-in protocols; a downstream crate
adds another by implementing `app`'s `ModelProvider` trait and handing it
to `Client::with_providers`, with a connection made by
`ConnectionManager::new` under that provider's name.
