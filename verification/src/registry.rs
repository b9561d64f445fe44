//! Provider resolution: which endpoint, key and model a named provider's
//! settings stand for.

use crate::config::{lookup, Settings};
use crate::error::ModelError;
use vstd::prelude::*;

verus! {

/// The wire protocols the library speaks. A name can be registered for one
/// of these three; a connection under any other name is served by whatever
/// protocol its caller supplies.
#[derive(Debug, Clone, Copy, PartialEq, Eq, Structural)]
pub enum ProviderKind {
    Anthropic,
    OpenAI,
    Gemini,
}

/// Everything a connection needs from resolving a provider's settings.
#[derive(Debug, Clone)]
pub struct ResolvedProvider {
    pub provider: ProviderKind,
    pub api_base: String,
    pub api_key: String,
    pub model_name: String,
}

/// What resolving settings comes to.
pub enum Resolution {
    Resolved { provider: ProviderKind, api_base: Seq<char>, api_key: Seq<char>, model_name: Seq<char> },
    /// A required setting (key) is missing or empty for a provider.
    Missing { key: Seq<char>, provider_name: Seq<char> },
    /// The API key cannot be sent as an HTTP header value.
    InvalidKey,
    /// No provider is registered under this name.
    Unknown { name: Seq<char> },
}

/// Whether `r` is what `want` describes.
pub open spec fn outcome_is(r: Result<ResolvedProvider, ModelError>, want: Resolution) -> bool {
    match want {
        Resolution::Resolved { provider, api_base, api_key, model_name } => r matches Ok(p) && p.provider
            == provider && p.api_base@ == api_base && p.api_key@ == api_key && p.model_name@
            == model_name,
        Resolution::Missing { key, provider_name } => r matches Err(ModelError::MissingSetting(k, p))
            && k@ == key && p@ == provider_name,
        Resolution::InvalidKey => r matches Err(ModelError::InvalidApiKey(_)),
        Resolution::Unknown { name } => r matches Err(ModelError::UnknownProvider(n)) && n@ == name,
    }
}

/// A byte an HTTP header value may hold: visible ASCII, space, tab, or any
/// byte of a multi-byte character.
pub open spec fn header_char(c: char) -> bool {
    (c as u32 >= 32 && c as u32 != 127) || c == '\t'
}

pub open spec fn header_text(s: Seq<char>) -> bool {
    forall|i: int| 0 <= i < s.len() ==> header_char(#[trigger] s[i])
}

/// `HeaderValue::from_str` (http, through reqwest): succeeds exactly when
/// every byte of the text is a tab or at least 32 and not 127. A character
/// beyond ASCII encodes to bytes of 128 and more, so this is a test per character.
#[verifier::external_body]
pub(crate) fn header_value_ok(s: &str) -> (b: bool)
    ensures
        b == header_text(s@),
{
    reqwest::header::HeaderValue::from_str(s).is_ok()
}

/// A setting's value, counting an empty value as absent.
pub open spec fn nonempty_setting(settings: Seq<(Seq<char>, Seq<char>)>, key: Seq<char>) -> Option<
    Seq<char>,
> {
    match lookup(settings, key) {
        Some(v) => if v.len() > 0 {
            Some(v)
        } else {
            None
        },
        None => None,
    }
}

/// A provider whose model name and API key are both required.
pub open spec fn keyed_resolution(
    kind: ProviderKind,
    name: Seq<char>,
    base: Seq<char>,
    settings: Seq<(Seq<char>, Seq<char>)>,
) -> Resolution {
    match nonempty_setting(settings, "model_name"@) {
        None => Resolution::Missing { key: "model_name"@, provider_name: name },
        Some(model) => match nonempty_setting(settings, "api_key"@) {
            None => Resolution::Missing { key: "api_key"@, provider_name: name },
            Some(key) => if header_text(key) {
                Resolution::Resolved { provider: kind, api_base: base, api_key: key, model_name: model }
            } else {
                Resolution::InvalidKey
            },
        },
    }
}

/// OpenAI-compatible endpoints: the key may be left out when a custom
/// `base_url` is set (local and self-hosted servers).
pub open spec fn openai_resolution(settings: Seq<(Seq<char>, Seq<char>)>) -> Resolution {
    match nonempty_setting(settings, "model_name"@) {
        None => Resolution::Missing { key: "model_name"@, provider_name: "openai"@ },
        Some(model) => {
            let base = nonempty_setting(settings, "base_url"@);
            let key = match lookup(settings, "api_key"@) {
                Some(k) => k,
                None => Seq::<char>::empty(),
            };
            if key.len() == 0 && base is None {
                Resolution::Missing { key: "api_key"@, provider_name: "openai"@ }
            } else if key.len() > 0 && !header_text(key) {
                Resolution::InvalidKey
            } else {
                Resolution::Resolved {
                    provider: ProviderKind::OpenAI,
                    api_base: match base {
                        Some(b) => b,
                        None => "https://api.openai.com/v1"@,
                    },
                    api_key: key,
                    model_name: model,
                }
            }
        },
    }
}

pub open spec fn kind_resolution(kind: ProviderKind, settings: Seq<(Seq<char>, Seq<char>)>) -> Resolution {
    match kind {
        ProviderKind::Anthropic => keyed_resolution(
            kind,
            "anthropic"@,
            "https://api.anthropic.com"@,
            settings,
        ),
        ProviderKind::OpenAI => openai_resolution(settings),
        ProviderKind::Gemini => keyed_resolution(
            kind,
            "gemini"@,
            "https://generativelanguage.googleapis.com"@,
            settings,
        ),
    }
}

/// The value of a required setting: present and non-empty.
pub fn require_setting(settings: &Settings, key: &str, provider: &str) -> (r: Result<String, ModelError>)
    ensures
        match nonempty_setting(settings@, key@) {
            Some(v) => r matches Ok(s) && s@ == v,
            None => r matches Err(ModelError::MissingSetting(k, p)) && k@ == key@ && p@ == provider@,
        },
{
    match settings.get(key) {
        Some(v) => {
            if !v.as_str().is_empty() {
                return Ok(v.clone());
            }
        },
        None => {},
    }
    Err(ModelError::MissingSetting(String::from_str(key), String::from_str(provider)))
}

fn invalid_key() -> (e: ModelError)
    ensures
        e matches ModelError::InvalidApiKey(_),
{
    ModelError::InvalidApiKey(
        String::from_str(
            "API key contains characters that are invalid in an HTTP header (control characters or non-visible ASCII)",
        ),
    )
}

fn keyed_factory(kind: ProviderKind, name: &str, base: &str, settings: &Settings) -> (r: Result<
    ResolvedProvider,
    ModelError,
>)
    ensures
        outcome_is(r, keyed_resolution(kind, name@, base@, settings@)),
{
    let model_name = match require_setting(settings, "model_name", name) {
        Ok(m) => m,
        Err(e) => {
            return Err(e);
        },
    };
    let api_key = match require_setting(settings, "api_key", name) {
        Ok(k) => k,
        Err(e) => {
            return Err(e);
        },
    };
    if !header_value_ok(api_key.as_str()) {
        return Err(invalid_key());
    }
    Ok(ResolvedProvider { provider: kind, api_base: String::from_str(base), api_key, model_name })
}

fn openai_factory(settings: &Settings) -> (r: Result<ResolvedProvider, ModelError>)
    ensures
        outcome_is(r, openai_resolution(settings@)),
{
    let model_name = match require_setting(settings, "model_name", "openai") {
        Ok(m) => m,
        Err(e) => {
            return Err(e);
        },
    };
    let base_url: Option<String> = match settings.get("base_url") {
        Some(b) => if b.as_str().is_empty() {
            None
        } else {
            Some(b.clone())
        },
        None => None,
    };
    let api_key: String = match settings.get("api_key") {
        Some(k) => k.clone(),
        None => String::new(),
    };
    if api_key.as_str().is_empty() && base_url.is_none() {
        return Err(
            ModelError::MissingSetting(String::from_str("api_key"), String::from_str("openai")),
        );
    }
    if !api_key.as_str().is_empty() && !header_value_ok(api_key.as_str()) {
        return Err(invalid_key());
    }
    let api_base = match base_url {
        Some(b) => b,
        None => String::from_str("https://api.openai.com/v1"),
    };
    Ok(ResolvedProvider { provider: ProviderKind::OpenAI, api_base, api_key, model_name })
}

/// Resolves `settings` for a provider of the given kind.
pub fn resolve(kind: ProviderKind, settings: &Settings) -> (r: Result<ResolvedProvider, ModelError>)
    ensures
        outcome_is(r, kind_resolution(kind, settings@)),
{
    match kind {
        ProviderKind::Anthropic => keyed_factory(
            kind,
            "anthropic",
            "https://api.anthropic.com",
            settings,
        ),
        ProviderKind::OpenAI => openai_factory(settings),
        ProviderKind::Gemini => keyed_factory(
            kind,
            "gemini",
            "https://generativelanguage.googleapis.com",
            settings,
        ),
    }
}

/// A name-keyed table of providers; a later registration under a name replaces
/// an earlier one. Plain data, not global state.
pub struct ProviderRegistry {
    entries: Vec<(String, ProviderKind)>,
}

/// The kind registered last under `name` in `entries`.
pub open spec fn registered(entries: Seq<(Seq<char>, ProviderKind)>, name: Seq<char>) -> Option<
    ProviderKind,
>
    decreases entries.len(),
{
    if entries.len() == 0 {
        None
    } else if entries.last().0 == name {
        Some(entries.last().1)
    } else {
        registered(entries.drop_last(), name)
    }
}

impl View for ProviderRegistry {
    type V = Seq<(Seq<char>, ProviderKind)>;

    closed spec fn view(&self) -> Seq<(Seq<char>, ProviderKind)> {
        self.entries@.map_values(|e: (String, ProviderKind)| (e.0@, e.1))
    }
}

impl ProviderRegistry {
    pub fn new() -> (r: Self)
        ensures
            r@ == Seq::<(Seq<char>, ProviderKind)>::empty(),
    {
        let r = ProviderRegistry { entries: Vec::new() };
        assert(r@ =~= Seq::<(Seq<char>, ProviderKind)>::empty());
        r
    }

    /// The three providers the library ships: "anthropic", "openai", "gemini".
    pub fn with_builtins() -> (r: Self)
        ensures
            registered(r@, "anthropic"@) == Some(ProviderKind::Anthropic),
            registered(r@, "openai"@) == Some(ProviderKind::OpenAI),
            registered(r@, "gemini"@) == Some(ProviderKind::Gemini),
            forall|n: Seq<char>|
                n != "anthropic"@ && n != "openai"@ && n != "gemini"@ ==> registered(r@, n) is None,
    {
        let mut r = Self::new();
        r.register(String::from_str("anthropic"), ProviderKind::Anthropic);
        r.register(String::from_str("openai"), ProviderKind::OpenAI);
        r.register(String::from_str("gemini"), ProviderKind::Gemini);
        proof {
            reveal_strlit("anthropic");
            reveal_strlit("openai");
            reveal_strlit("gemini");
        }
        assert(r@.drop_last().drop_last().drop_last() =~= Seq::<(Seq<char>, ProviderKind)>::empty());
        assert("anthropic"@.len() != "gemini"@.len() && "anthropic"@.len() != "openai"@.len());
        assert("openai"@[0] != "gemini"@[0]);
        assert("openai"@ != "gemini"@);
        assert(registered(r@.drop_last(), "openai"@) == Some(ProviderKind::OpenAI));
        assert(registered(r@.drop_last().drop_last(), "anthropic"@) == Some(ProviderKind::Anthropic));
        assert(registered(r@.drop_last(), "anthropic"@) == Some(ProviderKind::Anthropic));
        assert forall|n: Seq<char>|
            n != "anthropic"@ && n != "openai"@ && n != "gemini"@ implies registered(r@, n) is None by {
            assert(registered(r@.drop_last().drop_last().drop_last(), n) is None);
            assert(registered(r@.drop_last().drop_last(), n) is None);
            assert(registered(r@.drop_last(), n) is None);
        }
        r
    }

    /// Registers `kind` under `name`: `name` becomes another name for one of
    /// the built-in protocols; a later registration of a name replaces an
    /// earlier one.
    pub fn register(&mut self, name: String, kind: ProviderKind)
        ensures
            final(self)@ == old(self)@.push((name@, kind)),
    {
        self.entries.push((name, kind));
        assert(self@ =~= old(self)@.push((name@, kind)));
    }

    /// Resolves `settings` with the provider registered under `name`.
    pub fn build(&self, name: &str, settings: &Settings) -> (r: Result<ResolvedProvider, ModelError>)
        ensures
            match registered(self@, name@) {
                Some(kind) => outcome_is(r, kind_resolution(kind, settings@)),
                None => outcome_is(r, Resolution::Unknown { name: name@ }),
            },
    {
        let n = String::from_str(name);
        let mut i = self.entries.len();
        assert(self@.take(i as int) =~= self@);
        while i > 0
            invariant
                i <= self.entries@.len(),
                n@ == name@,
                registered(self@, name@) == registered(self@.take(i as int), name@),
            decreases i,
        {
            assert(self@.take(i as int).last() == (self.entries@[i - 1].0@, self.entries@[i
                - 1].1));
            assert(self@.take(i as int).drop_last() =~= self@.take(i - 1));
            if self.entries[i - 1].0 == n {
                return resolve(self.entries[i - 1].1, settings);
            }
            i -= 1;
        }
        Err(ModelError::UnknownProvider(n))
    }
}

} // verus!
