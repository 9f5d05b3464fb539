//! The configuration model: providers, profiles and the resolution of
//! an effective profile for one run. Loading and saving the file, and
//! reading environment variables, are the caller's; the values read
//! are handed in as plain parameters.

use vstd::prelude::*;
use crate::perms::is_abs_path;
use crate::text::{
    contains_string, lex_lt, lower_chars, lower_seq, parse_u64_chars, parse_u64_spec, str_eq,
    str_to_chars, trim_chars, trim_seq,
};

verus! {

/// A configuration file already exists where `--init` would write one.
#[derive(Debug, Clone)]
pub struct InitExistsError {
    pub path: String,
}

/// The CLI completion engines a provider can name.
#[derive(Debug, Clone, Copy, PartialEq, Eq, Structural)]
pub enum CliEngine {
    Codex,
}

/// One model provider: where to reach it and how to authenticate.
#[derive(Debug, Clone)]
pub struct ModelProvider {
    pub name: String,
    pub base_url: String,
    pub env_key: String,
    /// Optional inline api key in config. The environment variable
    /// named by `env_key` is consulted only if this is absent.
    pub api_key: Option<String>,
    /// True when the provider targets a local runtime (no API key required).
    pub local: bool,
    /// Optional TLS customization per provider.
    pub tls: Option<ProviderTlsConfig>,
}

/// Optional TLS customization: where the CA bundle lives.
#[derive(Debug, Clone)]
pub struct ProviderTlsConfig {
    /// Path to a PEM/DER CA bundle. Relative paths are resolved
    /// against the configuration directory.
    pub ca_bundle_path: Option<String>,
    /// Optional environment variable name whose value points to the
    /// bundle path.
    pub ca_bundle_env: Option<String>,
}

/// The CA bundle path chosen for a run.
#[derive(Debug, Clone)]
pub struct ResolvedTlsConfig {
    pub ca_bundle_path: String,
}

/// One named profile: a provider plus model settings.
#[derive(Debug, Clone)]
pub struct Profile {
    pub model_provider: String,
    pub model: String,
    pub reasoning_effort: Option<String>,
    /// Optional per-profile request timeout override (seconds as string).
    pub timeout: Option<String>,
}

/// The whole configuration file.
#[derive(Debug, Clone)]
pub struct Config {
    pub default_profile: String,
    pub model_providers: Vec<(String, ModelProvider)>,
    pub profiles: Vec<(String, Profile)>,
    pub include_history: bool,
    /// Automatically copy the first recommended `<cmd>` block.
    pub copy_first_command: bool,
    /// If present and not `0` or `false` (case-insensitive), emojis
    /// are disabled.
    pub no_emoji: Option<String>,
    /// Optional list of additional commands allowed for the
    /// execute_command tool.
    pub command_allowlist: Option<Vec<String>>,
}

/// The resolved configuration for a run.
#[derive(Debug, Clone)]
pub struct EffectiveProfile {
    pub provider_key: String,
    pub model: String,
    pub base_url: String,
    pub api_key: String,
    pub reasoning_effort: Option<String>,
    pub request_timeout_secs: Option<u64>,
    pub is_local: bool,
    pub headers: Vec<(String, String)>,
    pub tls: Option<ResolvedTlsConfig>,
}

/// Why a profile could not be resolved.
#[derive(Debug, Clone)]
pub enum ProfileError {
    ProfileNotFound(String),
    ProviderNotFound(String),
    MissingApiKey { env_key: String, provider_key: String },
    InvalidTimeout { value: String, profile: String },
    TlsEnvKeyEmpty,
    TlsEnvValueEmpty(String),
}

/// The placeholder key local providers fall back to.
pub open spec fn local_placeholder_key() -> Seq<char> {
    "qqqa-local-placeholder"@
}

/// The entries of the default configuration.
pub open spec fn is_default_config(c: Config) -> bool {
    &&& c.default_profile@ == "openrouter"@
    &&& !c.include_history
    &&& !c.copy_first_command
    &&& c.no_emoji is None
    &&& c.command_allowlist is None
    &&& c.model_providers@.len() == 4
    &&& c.model_providers@[0].0@ == "openai"@ && is_simple_provider(
        c.model_providers@[0].1,
        "OpenAI"@,
        "https://api.openai.com/v1"@,
        "OPENAI_API_KEY"@,
        false,
    )
    &&& c.model_providers@[1].0@ == "openrouter"@ && is_simple_provider(
        c.model_providers@[1].1,
        "OpenRouter"@,
        "https://openrouter.ai/api/v1"@,
        "OPENROUTER_API_KEY"@,
        false,
    )
    &&& c.model_providers@[2].0@ == "groq"@ && is_simple_provider(
        c.model_providers@[2].1,
        "Groq"@,
        "https://api.groq.com/openai/v1"@,
        "GROQ_API_KEY"@,
        false,
    )
    &&& c.model_providers@[3].0@ == "ollama"@ && is_simple_provider(
        c.model_providers@[3].1,
        "Ollama"@,
        "http://127.0.0.1:11434/v1"@,
        "OLLAMA_API_KEY"@,
        true,
    )
    &&& c.profiles@.len() == 4
    &&& c.profiles@[0].0@ == "openrouter"@ && is_simple_profile(
        c.profiles@[0].1,
        "openrouter"@,
        "openai/gpt-4.1-nano"@,
    )
    &&& c.profiles@[1].0@ == "openai"@ && is_simple_profile(
        c.profiles@[1].1,
        "openai"@,
        "gpt-5-mini"@,
    )
    &&& c.profiles@[2].0@ == "groq"@ && is_simple_profile(
        c.profiles@[2].1,
        "groq"@,
        "openai/gpt-oss-20b"@,
    )
    &&& c.profiles@[3].0@ == "ollama"@ && is_simple_profile(c.profiles@[3].1, "ollama"@, "llama3.1"@)
}

pub open spec fn is_simple_provider(
    p: ModelProvider,
    name: Seq<char>,
    base_url: Seq<char>,
    env_key: Seq<char>,
    local: bool,
) -> bool {
    &&& p.name@ == name
    &&& p.base_url@ == base_url
    &&& p.env_key@ == env_key
    &&& p.api_key is None
    &&& p.local == local
    &&& p.tls is None
}

pub open spec fn is_simple_profile(
    p: Profile,
    provider: Seq<char>,
    model: Seq<char>,
) -> bool {
    &&& p.model_provider@ == provider
    &&& p.model@ == model
    &&& p.reasoning_effort is None
    &&& p.timeout is None
}

fn simple_provider(name: &str, base_url: &str, env_key: &str, local: bool) -> (r: ModelProvider)
    ensures
        is_simple_provider(r, name@, base_url@, env_key@, local),
{
    ModelProvider {
        name: String::from_str(name),
        base_url: String::from_str(base_url),
        env_key: String::from_str(env_key),
        api_key: None,
        local,
        tls: None,
    }
}

fn simple_profile(provider: &str, model: &str) -> (r: Profile)
    ensures
        is_simple_profile(r, provider@, model@),
{
    Profile {
        model_provider: String::from_str(provider),
        model: String::from_str(model),
        reasoning_effort: None,
        timeout: None,
    }
}

impl Default for Config {
    /// The configuration written on first run: the known providers
    /// and one profile for each, defaulting to OpenRouter.
    fn default() -> (r: Self)
        ensures
            is_default_config(r),
    {
        let mut model_providers: Vec<(String, ModelProvider)> = Vec::new();
        model_providers.push(
            (
                String::from_str("openai"),
                simple_provider("OpenAI", "https://api.openai.com/v1", "OPENAI_API_KEY", false),
            ),
        );
        model_providers.push(
            (
                String::from_str("openrouter"),
                simple_provider(
                    "OpenRouter",
                    "https://openrouter.ai/api/v1",
                    "OPENROUTER_API_KEY",
                    false,
                ),
            ),
        );
        model_providers.push(
            (
                String::from_str("groq"),
                simple_provider("Groq", "https://api.groq.com/openai/v1", "GROQ_API_KEY", false),
            ),
        );
        model_providers.push(
            (
                String::from_str("ollama"),
                simple_provider("Ollama", "http://127.0.0.1:11434/v1", "OLLAMA_API_KEY", true),
            ),
        );
        let mut profiles: Vec<(String, Profile)> = Vec::new();
        profiles.push(
            (String::from_str("openrouter"), simple_profile("openrouter", "openai/gpt-4.1-nano")),
        );
        profiles.push((String::from_str("openai"), simple_profile("openai", "gpt-5-mini")));
        profiles.push((String::from_str("groq"), simple_profile("groq", "openai/gpt-oss-20b")));
        profiles.push((String::from_str("ollama"), simple_profile("ollama", "llama3.1")));
        Config {
            default_profile: String::from_str("openrouter"),
            model_providers,
            profiles,
            include_history: false,
            copy_first_command: false,
            no_emoji: None,
            command_allowlist: None,
        }
    }
}

/// Whether the no-emoji flag is effectively set: present and not
/// empty, `0` or `false` after trimming and lowercasing.
pub open spec fn no_emoji_enabled_spec(no_emoji: Option<Seq<char>>) -> bool {
    match no_emoji {
        None => false,
        Some(v) => {
            let t = lower_seq(trim_seq(v));
            !(t.len() == 0 || t == "0"@ || t == "false"@)
        },
    }
}

/// The first index whose key matches, or `-1`.
pub open spec fn provider_index(
    ps: Seq<(String, ModelProvider)>,
    key: Seq<char>,
    i: int,
) -> int
    decreases ps.len() - i when 0 <= i <= ps.len()
{
    if i >= ps.len() {
        -1
    } else if ps[i].0@ == key {
        i
    } else {
        provider_index(ps, key, i + 1)
    }
}

/// The first index whose key matches, or `-1`.
pub open spec fn profile_index(ps: Seq<(String, Profile)>, key: Seq<char>, i: int) -> int
    decreases ps.len() - i when 0 <= i <= ps.len()
{
    if i >= ps.len() {
        -1
    } else if ps[i].0@ == key {
        i
    } else {
        profile_index(ps, key, i + 1)
    }
}

/// The default headers of a provider: OpenRouter gets its referer and
/// title headers, everyone else none.
pub open spec fn default_headers_spec(key: Seq<char>) -> Seq<(Seq<char>, Seq<char>)> {
    if key == "openrouter"@ {
        seq![
            ("HTTP-Referer"@, "https://github.com/iagooar/qqqa"@),
            ("X-Title"@, "qqqa"@),
        ]
    } else {
        Seq::empty()
    }
}

/// Build the default headers of a provider.
pub fn provider_default_headers(provider_key: &str) -> (r: Vec<(String, String)>)
    ensures
        r@.len() == default_headers_spec(provider_key@).len(),
        forall|i: int|
            0 <= i < r@.len() ==> (#[trigger] r@[i]).0@ == default_headers_spec(provider_key@)[i].0
                && r@[i].1@ == default_headers_spec(provider_key@)[i].1,
{
    let mut headers: Vec<(String, String)> = Vec::new();
    if str_eq(provider_key, "openrouter") {
        headers.push(
            (String::from_str("HTTP-Referer"), String::from_str("https://github.com/iagooar/qqqa")),
        );
        headers.push((String::from_str("X-Title"), String::from_str("qqqa")));
    }
    headers
}

/// What resolving a TLS customization yields.
pub ghost enum TlsOutcome {
    Unset,
    Bundle(Seq<char>),
    EnvKeyEmpty,
    EnvValueEmpty(Seq<char>),
}

/// The chosen bundle path resolved against the configuration
/// directory: absolute paths stand, relative ones are joined.
pub open spec fn tls_chosen_outcome(chosen: Option<Seq<char>>, dir: Option<Seq<char>>) -> TlsOutcome {
    match chosen {
        None => TlsOutcome::Unset,
        Some(p) => TlsOutcome::Bundle(
            match dir {
                None => p,
                Some(d) => if is_abs_path(p) {
                    p
                } else {
                    d + "/"@ + p
                },
            },
        ),
    }
}

/// Resolve a TLS customization: a named environment variable wins
/// over the configured path; an empty variable name or value is an
/// error; a variable that is not set falls back to the path.
pub open spec fn tls_resolve_spec(
    path: Option<Seq<char>>,
    env_key: Option<Seq<char>>,
    env_value: Option<Seq<char>>,
    dir: Option<Seq<char>>,
) -> TlsOutcome {
    match env_key {
        Some(k) => if trim_seq(k).len() == 0 {
            TlsOutcome::EnvKeyEmpty
        } else {
            match env_value {
                Some(v) => if trim_seq(v).len() == 0 {
                    TlsOutcome::EnvValueEmpty(k)
                } else {
                    tls_chosen_outcome(Some(v), dir)
                },
                None => tls_chosen_outcome(path, dir),
            }
        },
        None => tls_chosen_outcome(path, dir),
    }
}

pub open spec fn opt_view(s: Option<&str>) -> Option<Seq<char>> {
    match s {
        Some(x) => Some(x@),
        None => None,
    }
}

pub open spec fn opt_string_view(s: Option<String>) -> Option<Seq<char>> {
    match s {
        Some(x) => Some(x@),
        None => None,
    }
}

impl ProviderTlsConfig {
    /// Resolve this TLS customization. `env_value` is the value of
    /// the variable named by `ca_bundle_env`, if the caller found one.
    pub fn resolve(&self, config_dir: Option<&str>, env_value: Option<&str>) -> (r: Result<
        Option<ResolvedTlsConfig>,
        ProfileError,
    >)
        ensures
            ({
                let outcome = tls_resolve_spec(
                    opt_string_view(self.ca_bundle_path),
                    opt_string_view(self.ca_bundle_env),
                    opt_view(env_value),
                    opt_view(config_dir),
                );
                match outcome {
                    TlsOutcome::Unset => r matches Ok(None),
                    TlsOutcome::Bundle(p) => (r matches Ok(Some(t)) && t.ca_bundle_path@ == p),
                    TlsOutcome::EnvKeyEmpty => r matches Err(ProfileError::TlsEnvKeyEmpty),
                    TlsOutcome::EnvValueEmpty(k) => (r matches Err(
                        ProfileError::TlsEnvValueEmpty(key),
                    ) && key@ == k),
                }
            }),
    {
        let chosen: Option<String> = match &self.ca_bundle_env {
            Some(k) => {
                if trim_chars(&str_to_chars(k.as_str())).len() == 0 {
                    return Err(ProfileError::TlsEnvKeyEmpty);
                }
                match env_value {
                    Some(v) => {
                        if trim_chars(&str_to_chars(v)).len() == 0 {
                            return Err(ProfileError::TlsEnvValueEmpty(String::from_str(k.as_str())));
                        }
                        Some(String::from_str(v))
                    },
                    None => match &self.ca_bundle_path {
                        Some(p) => Some(String::from_str(p.as_str())),
                        None => None,
                    },
                }
            },
            None => match &self.ca_bundle_path {
                Some(p) => Some(String::from_str(p.as_str())),
                None => None,
            },
        };
        match chosen {
            None => Ok(None),
            Some(p) => {
                let pc = str_to_chars(p.as_str());
                let resolved: String = match config_dir {
                    None => p,
                    Some(d) => {
                        if pc.len() > 0 && pc[0] == '/' {
                            p
                        } else {
                            let mut joined = String::from_str(d);
                            joined.append("/");
                            joined.append(p.as_str());
                            joined
                        }
                    },
                };
                Ok(Some(ResolvedTlsConfig { ca_bundle_path: resolved }))
            },
        }
    }
}

impl Config {
    /// Whether the no-emoji flag is effectively enabled.
    pub fn no_emoji_enabled(&self) -> (r: bool)
        ensures
            r == no_emoji_enabled_spec(opt_string_view(self.no_emoji)),
    {
        match &self.no_emoji {
            None => false,
            Some(v) => {
                let t = lower_chars(&trim_chars(&str_to_chars(v.as_str())));
                !(t.len() == 0 || crate::text::chars_eq(&t, &str_to_chars("0"))
                    || crate::text::chars_eq(&t, &str_to_chars("false")))
            },
        }
    }

    /// Commands explicitly allowed by the user for the
    /// execute_command tool.
    pub fn command_allowlist(&self) -> (r: Vec<String>)
        ensures
            match self.command_allowlist {
                Some(v) => r.deep_view() == v.deep_view(),
                None => r.deep_view() == Seq::<Seq<char>>::empty(),
            },
    {
        match &self.command_allowlist {
            Some(v) => {
                let mut out: Vec<String> = Vec::new();
                let mut i: usize = 0;
                while i < v.len()
                    invariant
                        i <= v@.len(),
                        v.deep_view().len() == v@.len(),
                        forall|j: int| 0 <= j < v@.len() ==> v.deep_view()[j] == v@[j]@,
                        out.deep_view() == v.deep_view().take(i as int),
                    decreases v@.len() - i,
                {
                    let ghost pre = out.deep_view();
                    let ghost i0 = i as int;
                    proof {
                        assert(v.deep_view()[i0] == v@[i0]@);
                    }
                    out.push(String::from_str(v[i].as_str()));
                    i = i + 1;
                    proof {
                        assert(out.deep_view() =~~= pre.push(v.deep_view()[i0]));
                        assert(v.deep_view().take(i0 + 1) =~~= pre.push(v.deep_view()[i0]));
                    }
                }
                proof {
                    assert(v.deep_view().take(v.deep_view().len() as int) =~~= v.deep_view());
                }
                out
            },
            None => {
                let out: Vec<String> = Vec::new();
                proof {
                    assert(out.deep_view() =~~= Seq::<Seq<char>>::empty());
                }
                out
            },
        }
    }

    /// Whether terminal history should be included in prompts.
    pub fn history_enabled(&self) -> (r: bool)
        ensures
            r == self.include_history,
    {
        self.include_history
    }

    /// Set the history preference toggle.
    pub fn set_history_enabled(&mut self, enabled: bool)
        ensures
            final(self).include_history == enabled,
            final(self).copy_first_command == old(self).copy_first_command,
            final(self).default_profile == old(self).default_profile,
            final(self).model_providers == old(self).model_providers,
            final(self).profiles == old(self).profiles,
            final(self).no_emoji == old(self).no_emoji,
            final(self).command_allowlist == old(self).command_allowlist,
    {
        self.include_history = enabled;
    }

    /// Whether the first `<cmd>` block should be copied to the
    /// clipboard by default.
    pub fn copy_first_command_enabled(&self) -> (r: bool)
        ensures
            r == self.copy_first_command,
    {
        self.copy_first_command
    }

    /// Set the clipboard auto-copy toggle.
    pub fn set_copy_first_command(&mut self, enabled: bool)
        ensures
            final(self).copy_first_command == enabled,
            final(self).include_history == old(self).include_history,
            final(self).default_profile == old(self).default_profile,
            final(self).model_providers == old(self).model_providers,
            final(self).profiles == old(self).profiles,
            final(self).no_emoji == old(self).no_emoji,
            final(self).command_allowlist == old(self).command_allowlist,
    {
        self.copy_first_command = enabled;
    }

    /// Add a command to the custom allowlist. Returns true if the
    /// command was newly inserted; the persisted list is then the
    /// sorted, deduplicated union of the old entries and the command.
    /// A command already present leaves the configuration untouched.
    pub fn add_command_to_allowlist(&mut self, command: &str) -> (r: bool)
        ensures
            ({
                let prior = match old(self).command_allowlist {
                    Some(v) => v.deep_view(),
                    None => Seq::<Seq<char>>::empty(),
                };
                let had = prior.contains(command@);
                &&& r == !had
                &&& final(self).default_profile == old(self).default_profile
                &&& final(self).model_providers == old(self).model_providers
                &&& final(self).profiles == old(self).profiles
                &&& final(self).include_history == old(self).include_history
                &&& final(self).copy_first_command == old(self).copy_first_command
                &&& final(self).no_emoji == old(self).no_emoji
                &&& (had ==> final(self).command_allowlist == old(self).command_allowlist)
                &&& (!had ==> (final(self).command_allowlist matches Some(v2) && strictly_sorted(
                    v2.deep_view(),
                ) && (forall|x: Seq<char>|
                    #[trigger] v2.deep_view().contains(x) <==> (prior.contains(x) || x
                        == command@))))
            }),
    {
        let current = self.command_allowlist();
        if contains_string(&current, command) {
            return false;
        }
        let ghost cur = current.deep_view();
        let mut sorted_list: Vec<String> = Vec::new();
        proof {
            assert(sorted_list.deep_view() =~~= Seq::<Seq<char>>::empty());
        }
        let mut k: usize = 0;
        while k < current.len()
            invariant
                k <= current@.len(),
                cur == current.deep_view(),
                cur.len() == current@.len(),
                forall|j: int| 0 <= j < current@.len() ==> cur[j] == current@[j]@,
                strictly_sorted(sorted_list.deep_view()),
                forall|x: Seq<char>|
                    #[trigger] sorted_list.deep_view().contains(x) <==> cur.take(
                        k as int,
                    ).contains(x),
            decreases current@.len() - k,
        {
            let ghost pre = sorted_list.deep_view();
            let ghost k0 = k as int;
            insert_sorted_unique(&mut sorted_list, String::from_str(current[k].as_str()));
            k = k + 1;
            proof {
                assert forall|x: Seq<char>|
                    #[trigger] sorted_list.deep_view().contains(x) <==> cur.take(
                        k as int,
                    ).contains(x) by {
                    lemma_take_one_more(cur, k0, x);
                }
            }
        }
        proof {
            assert(cur.take(cur.len() as int) =~~= cur);
        }
        insert_sorted_unique(&mut sorted_list, String::from_str(command));
        self.command_allowlist = Some(sorted_list);
        true
    }
}

/// A strictly ascending list in the lexicographic order: sorted,
/// with no duplicates.
pub open spec fn strictly_sorted(v: Seq<Seq<char>>) -> bool {
    forall|i: int| 0 <= i < v.len() - 1 ==> lex_lt(#[trigger] v[i], v[i + 1])
}

/// Membership in a one-longer prefix.
proof fn lemma_take_one_more(v: Seq<Seq<char>>, k: int, x: Seq<char>)
    requires
        0 <= k < v.len(),
    ensures
        v.take(k + 1).contains(x) <==> (v.take(k).contains(x) || x == v[k]),
{
    if v.take(k + 1).contains(x) {
        let i = choose|i: int| 0 <= i < v.take(k + 1).len() && #[trigger] v.take(k + 1)[i] == x;
        if i < k {
            assert(v.take(k)[i] == x);
        }
    }
    if v.take(k).contains(x) {
        let i = choose|i: int| 0 <= i < v.take(k).len() && #[trigger] v.take(k)[i] == x;
        assert(v.take(k + 1)[i] == x);
    }
    assert(v.take(k + 1)[k] == v[k]);
}

/// Membership after an insertion.
proof fn lemma_contains_insert(v: Seq<Seq<char>>, j: int, e: Seq<char>, x: Seq<char>)
    requires
        0 <= j <= v.len(),
    ensures
        v.insert(j, e).contains(x) <==> (v.contains(x) || x == e),
{
    let w = v.insert(j, e);
    v.insert_ensures(j, e);
    if w.contains(x) {
        let i = choose|i: int| 0 <= i < w.len() && #[trigger] w[i] == x;
        if i < j {
            assert(v[i] == x);
        } else if i > j {
            assert(v[i - 1] == x);
        }
    }
    if v.contains(x) {
        let i = choose|i: int| 0 <= i < v.len() && #[trigger] v[i] == x;
        if i < j {
            assert(w[i] == x);
        } else {
            assert(w[i + 1] == x);
        }
    }
    assert(w[j] == e);
}

/// Insert a command into a strictly sorted list, keeping it strictly
/// sorted; a command already present is left alone.
fn insert_sorted_unique(list: &mut Vec<String>, s: String)
    requires
        strictly_sorted(old(list).deep_view()),
    ensures
        strictly_sorted(final(list).deep_view()),
        forall|x: Seq<char>|
            #[trigger] final(list).deep_view().contains(x) <==> (old(
                list,
            ).deep_view().contains(x) || x == s@),
{
    let ghost dv = list.deep_view();
    let mut j: usize = 0;
    while j < list.len() && crate::text::str_lex_lt(list[j].as_str(), s.as_str())
        invariant
            j <= list@.len(),
            list@ == old(list)@,
            dv == list.deep_view(),
            dv.len() == list@.len(),
            forall|k: int| 0 <= k < list@.len() ==> dv[k] == list@[k]@,
            strictly_sorted(dv),
            forall|k: int| 0 <= k < j ==> crate::text::lex_lt(#[trigger] dv[k], s@),
        decreases list@.len() - j,
    {
        j = j + 1;
    }
    if j < list.len() && str_eq(list[j].as_str(), s.as_str()) {
        proof {
            assert(dv[j as int] == s@);
            assert(dv.contains(s@));
        }
        return ;
    }
    proof {
        if (j as int) < dv.len() {
            crate::text::lemma_lex_lt_connected(dv[j as int], s@);
            assert(crate::text::lex_lt(s@, dv[j as int]));
        }
    }
    let ghost pre = list.deep_view();
    list.insert(j, s);
    proof {
        pre.insert_ensures(j as int, s@);
        assert(list.deep_view() =~~= pre.insert(j as int, s@));
        let w = list.deep_view();
        assert forall|i: int| 0 <= i < w.len() - 1 implies crate::text::lex_lt(
            #[trigger] w[i],
            w[i + 1],
        ) by {
            if i + 1 < j {
                assert(w[i] == pre[i] && w[i + 1] == pre[i + 1]);
            } else if i + 1 == j {
                assert(w[i] == pre[i] && w[i + 1] == s@);
            } else if i == j {
                assert(w[i] == s@ && w[i + 1] == pre[i]);
            } else {
                assert(w[i] == pre[i - 1] && w[i + 1] == pre[i]);
            }
        }
        assert forall|x: Seq<char>|
            #[trigger] w.contains(x) <==> (pre.contains(x) || x == s@) by {
            lemma_contains_insert(pre, j as int, s@, x);
        }
    }
}

/// The timeout a profile asks for: `None` when the override is
/// invalid, `Some(None)` when there is none, `Some(Some(s))` for `s`
/// seconds.
pub open spec fn timeout_outcome(t: Option<String>) -> Option<Option<u64>> {
    match t {
        None => Some(None),
        Some(raw) => {
            let tr = trim_seq(raw@);
            if tr.len() == 0 {
                Some(None)
            } else {
                match parse_u64_spec(tr) {
                    Some(s) => if s == 0 {
                        None
                    } else {
                        Some(Some(s))
                    },
                    None => None,
                }
            }
        },
    }
}

/// What resolving a profile yields.
pub ghost enum ProfileOutcome {
    Resolved {
        provider_key: Seq<char>,
        model: Seq<char>,
        base_url: Seq<char>,
        api_key: Seq<char>,
        reasoning: Option<Seq<char>>,
        timeout: Option<u64>,
        local: bool,
        tls: TlsOutcome,
    },
    ProfileMissing(Seq<char>),
    ProviderMissing(Seq<char>),
    KeyMissing(Seq<char>, Seq<char>),
    TimeoutInvalid(Seq<char>, Seq<char>),
    TlsKeyEmpty,
    TlsValueEmpty(Seq<char>),
}

/// The full resolution pipeline: find the profile, find its provider,
/// settle the API key (inline key, then environment, then the local
/// placeholder), the timeout override, and the TLS customization.
pub open spec fn resolve_profile_spec(
    cfg: Config,
    profile_opt: Option<Seq<char>>,
    model_override: Option<Seq<char>>,
    config_dir: Option<Seq<char>>,
    env_api_key: Option<Seq<char>>,
    tls_env_value: Option<Seq<char>>,
) -> ProfileOutcome {
    let pname = match profile_opt {
        Some(p) => p,
        None => cfg.default_profile@,
    };
    let pi = profile_index(cfg.profiles@, pname, 0);
    if pi == -1 {
        ProfileOutcome::ProfileMissing(pname)
    } else {
        let prof = cfg.profiles@[pi].1;
        let vi = provider_index(cfg.model_providers@, prof.model_provider@, 0);
        if vi == -1 {
            ProfileOutcome::ProviderMissing(prof.model_provider@)
        } else {
            let prov = cfg.model_providers@[vi].1;
            let api = match prov.api_key {
                Some(k) => Some(k@),
                None => match env_api_key {
                    Some(v) => Some(v),
                    None => if prov.local {
                        Some(local_placeholder_key())
                    } else {
                        None
                    },
                },
            };
            match api {
                None => ProfileOutcome::KeyMissing(prov.env_key@, prof.model_provider@),
                Some(key) => match timeout_outcome(prof.timeout) {
                    None => ProfileOutcome::TimeoutInvalid(
                        match prof.timeout {
                            Some(raw) => raw@,
                            None => Seq::empty(),
                        },
                        pname,
                    ),
                    Some(tsecs) => {
                        let tls = match prov.tls {
                            Some(t) => tls_resolve_spec(
                                opt_string_view(t.ca_bundle_path),
                                opt_string_view(t.ca_bundle_env),
                                tls_env_value,
                                config_dir,
                            ),
                            None => TlsOutcome::Unset,
                        };
                        match tls {
                            TlsOutcome::EnvKeyEmpty => ProfileOutcome::TlsKeyEmpty,
                            TlsOutcome::EnvValueEmpty(k) => ProfileOutcome::TlsValueEmpty(k),
                            _ => ProfileOutcome::Resolved {
                                provider_key: prof.model_provider@,
                                model: match model_override {
                                    Some(m) => m,
                                    None => prof.model@,
                                },
                                base_url: prov.base_url@,
                                api_key: key,
                                reasoning: opt_string_view(prof.reasoning_effort),
                                timeout: tsecs,
                                local: prov.local,
                                tls,
                            },
                        }
                    },
                },
            }
        }
    }
}

/// How an executable result realizes a resolution outcome.
pub open spec fn profile_outcome_matches(
    r: Result<EffectiveProfile, ProfileError>,
    o: ProfileOutcome,
) -> bool {
    match o {
        ProfileOutcome::Resolved {
            provider_key,
            model,
            base_url,
            api_key,
            reasoning,
            timeout,
            local,
            tls,
        } => r matches Ok(eff) && {
            &&& eff.provider_key@ == provider_key
            &&& eff.model@ == model
            &&& eff.base_url@ == base_url
            &&& eff.api_key@ == api_key
            &&& opt_string_view(eff.reasoning_effort) == reasoning
            &&& eff.request_timeout_secs == timeout
            &&& eff.is_local == local
            &&& eff.headers@.len() == default_headers_spec(provider_key).len()
            &&& forall|i: int|
                0 <= i < eff.headers@.len() ==> (#[trigger] eff.headers@[i]).0@
                    == default_headers_spec(provider_key)[i].0 && eff.headers@[i].1@
                    == default_headers_spec(provider_key)[i].1
            &&& match tls {
                TlsOutcome::Unset => eff.tls is None,
                TlsOutcome::Bundle(p) => eff.tls matches Some(t) && t.ca_bundle_path@ == p,
                _ => false,
            }
        },
        ProfileOutcome::ProfileMissing(n) => r matches Err(ProfileError::ProfileNotFound(x)) && x@
            == n,
        ProfileOutcome::ProviderMissing(n) => r matches Err(ProfileError::ProviderNotFound(x))
            && x@ == n,
        ProfileOutcome::KeyMissing(e, p) => r matches Err(
            ProfileError::MissingApiKey { env_key, provider_key },
        ) && env_key@ == e && provider_key@ == p,
        ProfileOutcome::TimeoutInvalid(v, p) => r matches Err(
            ProfileError::InvalidTimeout { value, profile },
        ) && value@ == v && profile@ == p,
        ProfileOutcome::TlsKeyEmpty => r matches Err(ProfileError::TlsEnvKeyEmpty),
        ProfileOutcome::TlsValueEmpty(k) => r matches Err(ProfileError::TlsEnvValueEmpty(x)) && x@
            == k,
    }
}

impl Config {
    fn find_profile_idx(&self, name: &str) -> (r: Option<usize>)
        ensures
            match r {
                Some(i) => profile_index(self.profiles@, name@, 0) == i as int && i
                    < self.profiles@.len(),
                None => profile_index(self.profiles@, name@, 0) == -1,
            },
    {
        let mut k: usize = 0;
        while k < self.profiles.len()
            invariant
                k <= self.profiles@.len(),
                profile_index(self.profiles@, name@, 0) == profile_index(
                    self.profiles@,
                    name@,
                    k as int,
                ),
            decreases self.profiles@.len() - k,
        {
            if str_eq(self.profiles[k].0.as_str(), name) {
                return Some(k);
            }
            k = k + 1;
        }
        None
    }

    fn find_provider_idx(&self, name: &str) -> (r: Option<usize>)
        ensures
            match r {
                Some(i) => provider_index(self.model_providers@, name@, 0) == i as int && i
                    < self.model_providers@.len(),
                None => provider_index(self.model_providers@, name@, 0) == -1,
            },
    {
        let mut k: usize = 0;
        while k < self.model_providers.len()
            invariant
                k <= self.model_providers@.len(),
                provider_index(self.model_providers@, name@, 0) == provider_index(
                    self.model_providers@,
                    name@,
                    k as int,
                ),
            decreases self.model_providers@.len() - k,
        {
            if str_eq(self.model_providers[k].0.as_str(), name) {
                return Some(k);
            }
            k = k + 1;
        }
        None
    }

    /// The environment variables a resolution would consult: the
    /// provider's key variable and, when TLS names one, the CA-bundle
    /// variable. `None` when the profile or provider is unknown.
    pub fn profile_env_keys(&self, profile_opt: Option<&str>) -> (r: Option<
        (String, Option<String>),
    >)
        ensures
            ({
                let pname = match profile_opt {
                    Some(p) => p@,
                    None => self.default_profile@,
                };
                let pi = profile_index(self.profiles@, pname, 0);
                if pi == -1 {
                    r is None
                } else {
                    let vi = provider_index(
                        self.model_providers@,
                        self.profiles@[pi].1.model_provider@,
                        0,
                    );
                    if vi == -1 {
                        r is None
                    } else {
                        r matches Some(p) && p.0@ == self.model_providers@[vi].1.env_key@
                            && (match self.model_providers@[vi].1.tls {
                            Some(t) => opt_string_view(p.1) == opt_string_view(t.ca_bundle_env),
                            None => p.1 is None,
                        })
                    }
                }
            }),
    {
        let name: &str = match profile_opt {
            Some(p) => p,
            None => self.default_profile.as_str(),
        };
        let pi = match self.find_profile_idx(name) {
            Some(i) => i,
            None => {
                return None;
            },
        };
        let provider_name = self.profiles[pi].1.model_provider.as_str();
        let vi = match self.find_provider_idx(provider_name) {
            Some(i) => i,
            None => {
                return None;
            },
        };
        let prov = &self.model_providers[vi].1;
        let tls_env = match &prov.tls {
            Some(t) => match &t.ca_bundle_env {
                Some(k) => Some(String::from_str(k.as_str())),
                None => None,
            },
            None => None,
        };
        Some((String::from_str(prov.env_key.as_str()), tls_env))
    }

    /// Resolve the effective profile. `env_api_key` and
    /// `tls_env_value` are the values of the variables named by
    /// `profile_env_keys`, if the caller found them.
    pub fn resolve_profile(
        &self,
        profile_opt: Option<&str>,
        model_override: Option<&str>,
        config_dir: Option<&str>,
        env_api_key: Option<&str>,
        tls_env_value: Option<&str>,
    ) -> (r: Result<EffectiveProfile, ProfileError>)
        ensures
            profile_outcome_matches(
                r,
                resolve_profile_spec(
                    *self,
                    opt_view(profile_opt),
                    opt_view(model_override),
                    opt_view(config_dir),
                    opt_view(env_api_key),
                    opt_view(tls_env_value),
                ),
            ),
    {
        let name: &str = match profile_opt {
            Some(p) => p,
            None => self.default_profile.as_str(),
        };
        let pi = match self.find_profile_idx(name) {
            Some(i) => i,
            None => {
                return Err(ProfileError::ProfileNotFound(String::from_str(name)));
            },
        };
        let prof = &self.profiles[pi].1;
        let vi = match self.find_provider_idx(prof.model_provider.as_str()) {
            Some(i) => i,
            None => {
                return Err(
                    ProfileError::ProviderNotFound(
                        String::from_str(prof.model_provider.as_str()),
                    ),
                );
            },
        };
        let prov = &self.model_providers[vi].1;
        let api_key: String = match &prov.api_key {
            Some(k) => String::from_str(k.as_str()),
            None => match env_api_key {
                Some(v) => String::from_str(v),
                None => {
                    if prov.local {
                        String::from_str("qqqa-local-placeholder")
                    } else {
                        return Err(
                            ProfileError::MissingApiKey {
                                env_key: String::from_str(prov.env_key.as_str()),
                                provider_key: String::from_str(prof.model_provider.as_str()),
                            },
                        );
                    }
                },
            },
        };
        let request_timeout_secs: Option<u64> = match &prof.timeout {
            None => None,
            Some(raw) => {
                let t = trim_chars(&str_to_chars(raw.as_str()));
                if t.len() == 0 {
                    None
                } else {
                    match parse_u64_chars(&t) {
                        Some(s) => {
                            if s == 0 {
                                return Err(
                                    ProfileError::InvalidTimeout {
                                        value: String::from_str(raw.as_str()),
                                        profile: String::from_str(name),
                                    },
                                );
                            }
                            Some(s)
                        },
                        None => {
                            return Err(
                                ProfileError::InvalidTimeout {
                                    value: String::from_str(raw.as_str()),
                                    profile: String::from_str(name),
                                },
                            );
                        },
                    }
                }
            },
        };
        let tls: Option<ResolvedTlsConfig> = match &prov.tls {
            Some(t) => match t.resolve(config_dir, tls_env_value) {
                Ok(resolved) => resolved,
                Err(e) => {
                    return Err(e);
                },
            },
            None => None,
        };
        let headers = provider_default_headers(prof.model_provider.as_str());
        let model: String = match model_override {
            Some(m) => String::from_str(m),
            None => String::from_str(prof.model.as_str()),
        };
        Ok(
            EffectiveProfile {
                provider_key: String::from_str(prof.model_provider.as_str()),
                model,
                base_url: String::from_str(prov.base_url.as_str()),
                api_key,
                reasoning_effort: match &prof.reasoning_effort {
                    Some(e) => Some(String::from_str(e.as_str())),
                    None => None,
                },
                request_timeout_secs,
                is_local: prov.local,
                headers,
                tls,
            },
        )
    }
}

} // verus!
