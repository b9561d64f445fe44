//! Agent and provider configuration.

use crate::error::{AgentError, ConfigError};
use vstd::prelude::*;

verus! {

/// Provider settings: string keys to string values, a later entry for a key
/// replacing an earlier one.
#[derive(Debug)]
pub struct Settings {
    entries: Vec<(String, String)>,
}

/// Value of `key` in `entries`: the last entry that has the key.
pub open spec fn lookup(entries: Seq<(Seq<char>, Seq<char>)>, key: Seq<char>) -> Option<Seq<char>>
    decreases entries.len(),
{
    if entries.len() == 0 {
        None
    } else if entries.last().0 == key {
        Some(entries.last().1)
    } else {
        lookup(entries.drop_last(), key)
    }
}

impl View for Settings {
    type V = Seq<(Seq<char>, Seq<char>)>;

    closed spec fn view(&self) -> Seq<(Seq<char>, Seq<char>)> {
        self.entries@.map_values(|e: (String, String)| (e.0@, e.1@))
    }
}

impl Settings {
    /// The value that `key` has.
    pub open spec fn get_spec(&self, key: Seq<char>) -> Option<Seq<char>> {
        lookup(self@, key)
    }

    pub fn new() -> (s: Self)
        ensures
            s@ == Seq::<(Seq<char>, Seq<char>)>::empty(),
    {
        let s = Settings { entries: Vec::new() };
        assert(s@ =~= Seq::<(Seq<char>, Seq<char>)>::empty());
        s
    }

    /// Sets `key` to `value`.
    pub fn insert(&mut self, key: String, value: String)
        ensures
            final(self)@ == old(self)@.push((key@, value@)),
            final(self).get_spec(key@) == Some(value@),
    {
        self.entries.push((key, value));
        assert(self@ =~= old(self)@.push((key@, value@)));
    }

    /// The value of `key`, if set.
    pub fn get(&self, key: &str) -> (r: Option<&String>)
        ensures
            match r {
                Some(v) => self.get_spec(key@) == Some(v@),
                None => self.get_spec(key@) is None,
            },
    {
        let k = String::from_str(key);
        let mut i = self.entries.len();
        assert(self@.take(i as int) =~= self@);
        while i > 0
            invariant
                i <= self.entries@.len(),
                k@ == key@,
                lookup(self@, key@) == lookup(self@.take(i as int), key@),
            decreases i,
        {
            assert(self@.take(i as int).last() == (self.entries@[i - 1].0@, self.entries@[i
                - 1].1@));
            assert(self@.take(i as int).drop_last() =~= self@.take(i - 1));
            if self.entries[i - 1].0 == k {
                return Some(&self.entries[i - 1].1);
            }
            i -= 1;
        }
        None
    }

    /// A copy with the same entries.
    pub fn copy(&self) -> (s: Self)
        ensures
            s@ == self@,
    {
        let mut entries: Vec<(String, String)> = Vec::new();
        let mut i: usize = 0;
        while i < self.entries.len()
            invariant
                i <= self.entries@.len(),
                entries@.map_values(|e: (String, String)| (e.0@, e.1@)) =~= self@.take(i as int),
            decreases self.entries.len() - i,
        {
            let k = self.entries[i].0.clone();
            let v = self.entries[i].1.clone();
            let ghost before = entries@;
            entries.push((k, v));
            assert(entries@.map_values(|e: (String, String)| (e.0@, e.1@)) =~= before.map_values(
                |e: (String, String)| (e.0@, e.1@),
            ).push((k@, v@)));
            assert(self@[i as int] == (self.entries@[i as int].0@, self.entries@[i as int].1@));
            assert(self@.take(i + 1) =~= self@.take(i as int).push(self@[i as int]));
            i += 1;
        }
        assert(self@.take(self@.len() as int) =~= self@);
        Settings { entries }
    }
}

/// Which provider to talk to, and its settings.
#[derive(Debug)]
pub struct ProviderConfig {
    pub name: String,
    pub settings: Settings,
}

impl ProviderConfig {
    pub fn anthropic(model_name: String, api_key: String) -> (c: Self)
        ensures
            c.name@ == "anthropic"@,
            c.settings@ == seq![("model_name"@, model_name@), ("api_key"@, api_key@)],
    {
        let mut settings = Settings::new();
        settings.insert(String::from_str("model_name"), model_name);
        settings.insert(String::from_str("api_key"), api_key);
        ProviderConfig { name: String::from_str("anthropic"), settings }
    }

    /// An OpenAI-compatible endpoint; `base_url` is recorded only when given.
    pub fn openai(model_name: String, api_key: String, base_url: Option<String>) -> (c: Self)
        ensures
            c.name@ == "openai"@,
            c.settings@ == match base_url {
                Some(u) => seq![("model_name"@, model_name@), ("api_key"@, api_key@), ("base_url"@, u@)],
                None => seq![("model_name"@, model_name@), ("api_key"@, api_key@)],
            },
    {
        let mut settings = Settings::new();
        settings.insert(String::from_str("model_name"), model_name);
        settings.insert(String::from_str("api_key"), api_key);
        match base_url {
            Some(u) => settings.insert(String::from_str("base_url"), u),
            None => {},
        }
        ProviderConfig { name: String::from_str("openai"), settings }
    }

    pub fn gemini(model_name: String, api_key: String) -> (c: Self)
        ensures
            c.name@ == "gemini"@,
            c.settings@ == seq![("model_name"@, model_name@), ("api_key"@, api_key@)],
    {
        let mut settings = Settings::new();
        settings.insert(String::from_str("model_name"), model_name);
        settings.insert(String::from_str("api_key"), api_key);
        ProviderConfig { name: String::from_str("gemini"), settings }
    }

    /// A provider registered by name, with its own settings.
    pub fn custom(name: String, settings: Settings) -> (c: Self)
        ensures
            c.name@ == name@,
            c.settings@ == settings@,
    {
        ProviderConfig { name, settings }
    }

    pub fn copy(&self) -> (c: Self)
        ensures
            c.name@ == self.name@,
            c.settings@ == self.settings@,
    {
        ProviderConfig { name: self.name.clone(), settings: self.settings.copy() }
    }
}

#[derive(Debug)]
pub struct Config {
    pub provider: ProviderConfig,
    pub max_messages: usize,
    pub tools: Vec<String>,
    /// Optional prompts directory for template and example loading.
    pub prompts_dir: Option<String>,
    /// Optional system prompt override.
    pub system_prompt: Option<String>,
}

impl Config {
    /// A configuration is usable once it names a provider. Provider-specific
    /// settings are checked when the provider is resolved.
    pub fn validate(&self) -> (r: Result<(), AgentError>)
        ensures
            r is Ok <==> self.provider.name@.len() > 0,
            r matches Err(e) ==> e matches AgentError::Config(ConfigError::Missing(m)) && m@
                == "provider.name is required"@,
    {
        if self.provider.name.as_str().is_empty() {
            return Err(
                AgentError::Config(ConfigError::Missing(String::from_str("provider.name is required"))),
            );
        }
        Ok(())
    }
}

} // verus!
