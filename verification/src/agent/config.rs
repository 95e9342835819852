//! The assistant's configuration, merged from layers: the defaults, then
//! the user-level file, then the project-level file, then environment
//! overrides; a missing API key refuses the result.
use vstd::prelude::*;
use crate::text::{parse_unsigned, parse_unsigned_spec};

verus! {

#[derive(Debug, Clone, PartialEq, Eq)]
pub struct TelegramConfig {
    /// Bot token from @BotFather.
    pub token: String,
    /// Allowed sender IDs. Empty = deny all, ["*"] = allow all.
    pub allow_from: Vec<String>,
}

#[derive(Debug, Clone, PartialEq, Eq)]
pub struct AgentConfig {
    /// Anthropic-compatible API base URL (no trailing slash).
    pub base_url: String,
    pub api_key: String,
    pub model: String,
    pub max_tokens: u32,
    /// Max tool-calling iterations per request.
    pub max_iterations: usize,
    /// Request timeout in seconds.
    pub timeout_secs: u64,
    pub telegram: TelegramConfig,
    /// The resolved data directory.
    pub data_dir: String,
}

/// One configuration file: every field optional.
#[derive(Debug, Clone, PartialEq, Eq)]
pub struct PartialConfig {
    pub base_url: Option<String>,
    pub api_key: Option<String>,
    pub model: Option<String>,
    pub max_tokens: Option<u32>,
    pub max_iterations: Option<usize>,
    pub timeout_secs: Option<u64>,
    pub telegram: Option<TelegramConfig>,
}

/// The environment variables that override the files, as read.
#[derive(Debug, Clone, PartialEq, Eq)]
pub struct EnvOverrides {
    /// `ANTHROPIC_BASE_URL`
    pub base_url: Option<String>,
    /// `ANTHROPIC_AUTH_TOKEN`
    pub auth_token: Option<String>,
    /// `ANTHROPIC_API_KEY`, which wins over the auth token.
    pub api_key: Option<String>,
    /// `ARCANA_MODEL`
    pub model: Option<String>,
    /// `ARCANA_MAX_TOKENS`
    pub max_tokens: Option<String>,
    /// `ARCANA_TIMEOUT_SECS`
    pub timeout_secs: Option<String>,
    /// `TELOXIDE_TOKEN`
    pub teloxide_token: Option<String>,
    /// `ARCANA_TELEGRAM_TOKEN`, which wins over the teloxide token.
    pub telegram_token: Option<String>,
}

pub open spec fn default_base_url() -> Seq<char> {
    "https://api.anthropic.com"@
}

pub const DEFAULT_MAX_TOKENS: u32 = 8192;
pub const DEFAULT_MAX_ITERATIONS: usize = 20;
pub const DEFAULT_TIMEOUT_SECS: u64 = 120;

/// A non-empty value replaces the current one.
pub open spec fn overlay(current: Seq<char>, value: Option<String>) -> Seq<char> {
    match value {
        Some(v) => if v@.len() > 0 { v@ } else { current },
        None => current,
    }
}

pub open spec fn overlay_number<T>(current: T, value: Option<T>) -> T {
    match value {
        Some(v) => v,
        None => current,
    }
}

pub open spec fn names_view(v: Seq<String>) -> Seq<Seq<char>> {
    v.map_values(|s: String| s@)
}

/// What a configuration holds, strings by content.
pub struct AgentConfigModel {
    pub base_url: Seq<char>,
    pub api_key: Seq<char>,
    pub model: Seq<char>,
    pub max_tokens: u32,
    pub max_iterations: usize,
    pub timeout_secs: u64,
    pub token: Seq<char>,
    pub allow_from: Seq<Seq<char>>,
    pub data_dir: Seq<char>,
}

impl View for AgentConfig {
    type V = AgentConfigModel;

    open spec fn view(&self) -> AgentConfigModel {
        AgentConfigModel {
            base_url: self.base_url@,
            api_key: self.api_key@,
            model: self.model@,
            max_tokens: self.max_tokens,
            max_iterations: self.max_iterations,
            timeout_secs: self.timeout_secs,
            token: self.telegram.token@,
            allow_from: names_view(self.telegram.allow_from@),
            data_dir: self.data_dir@,
        }
    }
}

/// What a configuration file changes.
pub open spec fn merge_spec(c: AgentConfigModel, p: PartialConfig) -> AgentConfigModel {
    AgentConfigModel {
        base_url: overlay(c.base_url, p.base_url),
        api_key: overlay(c.api_key, p.api_key),
        model: overlay(c.model, p.model),
        max_tokens: overlay_number(c.max_tokens, p.max_tokens),
        max_iterations: overlay_number(c.max_iterations, p.max_iterations),
        timeout_secs: overlay_number(c.timeout_secs, p.timeout_secs),
        token: match p.telegram {
            Some(t) => if t.token@.len() > 0 { t.token@ } else { c.token },
            None => c.token,
        },
        allow_from: match p.telegram {
            Some(t) => if t.allow_from@.len() > 0 { names_view(t.allow_from@) } else { c.allow_from },
            None => c.allow_from,
        },
        data_dir: c.data_dir,
    }
}

/// A number read from the environment replaces the current one when it
/// reads as a number of its type.
pub open spec fn overlay_parsed(current: int, value: Option<String>, max: int) -> int {
    match value {
        Some(v) => match parse_unsigned_spec(v@, max) {
            Some(n) => n,
            None => current,
        },
        None => current,
    }
}

/// What the environment changes.
pub open spec fn apply_env_spec(c: AgentConfigModel, e: EnvOverrides) -> AgentConfigModel {
    AgentConfigModel {
        base_url: overlay(c.base_url, e.base_url),
        api_key: overlay(overlay(c.api_key, e.auth_token), e.api_key),
        model: overlay(c.model, e.model),
        max_tokens: overlay_parsed(c.max_tokens as int, e.max_tokens, u32::MAX as int) as u32,
        max_iterations: c.max_iterations,
        timeout_secs: overlay_parsed(c.timeout_secs as int, e.timeout_secs, u64::MAX as int) as u64,
        token: overlay(overlay(c.token, e.teloxide_token), e.telegram_token),
        allow_from: c.allow_from,
        data_dir: c.data_dir,
    }
}

/// `s` without its trailing slashes.
pub open spec fn trim_trailing_slashes(s: Seq<char>) -> Seq<char>
    decreases s.len(),
{
    if s.len() > 0 && s.last() == '/' {
        trim_trailing_slashes(s.drop_last())
    } else {
        s
    }
}

fn overlay_string(current: &mut String, value: &Option<String>)
    ensures
        final(current)@ == overlay(old(current)@, *value),
{
    match value {
        Some(v) => {
            if v.unicode_len() > 0 {
                *current = v.clone();
            }
        },
        None => {},
    }
}

fn copy_names(v: &Vec<String>) -> (r: Vec<String>)
    ensures
        names_view(r@) == names_view(v@),
{
    let mut out: Vec<String> = Vec::new();
    let mut k: usize = 0;
    while k < v.len()
        invariant
            k <= v@.len(),
            names_view(out@) == names_view(v@.take(k as int)),
        decreases v.len() - k,
    {
        let ghost before = out@;
        out.push(v[k].clone());
        proof {
            assert(names_view(out@) =~= names_view(before).push(v@[k as int]@));
            assert(v@.take(k + 1) =~= v@.take(k as int).push(v@[k as int]));
            assert(names_view(v@.take(k + 1)) =~= names_view(v@.take(k as int)).push(v@[k as int]@));
        }
        k = k + 1;
    }
    proof { assert(v@.take(v@.len() as int) =~= v@); }
    out
}

fn trim_end_slashes(s: &str) -> (r: String)
    ensures
        r@ == trim_trailing_slashes(s@),
{
    let mut end: usize = s.unicode_len();
    proof { assert(s@.take(end as int) =~= s@); }
    while end > 0 && s.get_char(end - 1) == '/'
        invariant
            end <= s@.len(),
            trim_trailing_slashes(s@) == trim_trailing_slashes(s@.take(end as int)),
        decreases end,
    {
        proof {
            assert(s@.take(end as int).last() == '/');
            assert(s@.take(end as int).drop_last() =~= s@.take(end - 1));
        }
        end = end - 1;
    }
    proof {
        let t = s@.take(end as int);
        if t.len() > 0 {
            assert(t.last() == s@[end - 1]);
        }
    }
    String::from_str(s.substring_char(0, end))
}

impl AgentConfig {
    /// The defaults, with the model the deployment names as its default.
    pub fn default_config(default_model: String) -> (r: Self)
        ensures
            r@ == (AgentConfigModel {
                base_url: default_base_url(),
                api_key: Seq::empty(),
                model: default_model@,
                max_tokens: DEFAULT_MAX_TOKENS,
                max_iterations: DEFAULT_MAX_ITERATIONS,
                timeout_secs: DEFAULT_TIMEOUT_SECS,
                token: Seq::empty(),
                allow_from: Seq::empty(),
                data_dir: Seq::empty(),
            }),
    {
        let r = AgentConfig {
            base_url: String::from_str("https://api.anthropic.com"),
            api_key: String::new(),
            model: default_model,
            max_tokens: DEFAULT_MAX_TOKENS,
            max_iterations: DEFAULT_MAX_ITERATIONS,
            timeout_secs: DEFAULT_TIMEOUT_SECS,
            telegram: TelegramConfig { token: String::new(), allow_from: Vec::new() },
            data_dir: String::new(),
        };
        proof { assert(names_view(r.telegram.allow_from@) =~= Seq::<Seq<char>>::empty()); }
        r
    }

    /// Merge the non-empty fields of a configuration file.
    pub fn merge(&mut self, partial: &PartialConfig)
        ensures
            final(self)@ == merge_spec(old(self)@, *partial),
    {
        overlay_string(&mut self.base_url, &partial.base_url);
        overlay_string(&mut self.api_key, &partial.api_key);
        overlay_string(&mut self.model, &partial.model);
        match partial.max_tokens {
            Some(v) => self.max_tokens = v,
            None => {},
        }
        match partial.max_iterations {
            Some(v) => self.max_iterations = v,
            None => {},
        }
        match partial.timeout_secs {
            Some(v) => self.timeout_secs = v,
            None => {},
        }
        match &partial.telegram {
            Some(t) => {
                if t.token.unicode_len() > 0 {
                    self.telegram.token = t.token.clone();
                }
                if t.allow_from.len() > 0 {
                    self.telegram.allow_from = copy_names(&t.allow_from);
                }
            },
            None => {},
        }
    }

    /// Apply the environment's overrides.
    pub fn apply_env(&mut self, env: &EnvOverrides)
        ensures
            final(self)@ == apply_env_spec(old(self)@, *env),
    {
        overlay_string(&mut self.base_url, &env.base_url);
        overlay_string(&mut self.api_key, &env.auth_token);
        overlay_string(&mut self.api_key, &env.api_key);
        overlay_string(&mut self.model, &env.model);
        match &env.max_tokens {
            Some(v) => match parse_unsigned(v.as_str(), u32::MAX as u64) {
                Some(n) => self.max_tokens = n as u32,
                None => {},
            },
            None => {},
        }
        match &env.timeout_secs {
            Some(v) => match parse_unsigned(v.as_str(), u64::MAX) {
                Some(n) => self.timeout_secs = n,
                None => {},
            },
            None => {},
        }
        overlay_string(&mut self.telegram.token, &env.teloxide_token);
        overlay_string(&mut self.telegram.token, &env.telegram_token);
    }

    /// The finished configuration: refused without an API key, and with the
    /// base URL's trailing slashes removed.
    pub fn finish(self) -> (r: Result<AgentConfig, String>)
        ensures
            self.api_key@.len() == 0 ==> r is Err,
            self.api_key@.len() > 0 ==> (r matches Ok(c) && c@ == (AgentConfigModel {
                base_url: trim_trailing_slashes(self@.base_url),
                ..self@
            })),
    {
        if self.api_key.unicode_len() == 0 {
            return Err(String::from_str(
                "API key not configured. Set it in:\n  1. ~/.arcana/agent_config.json  (recommended)\n  2. data/agent_config.json\n  3. ANTHROPIC_API_KEY or ANTHROPIC_AUTH_TOKEN env var",
            ));
        }
        let base_url = trim_end_slashes(self.base_url.as_str());
        Ok(AgentConfig { base_url, ..self })
    }

    /// Merge the layers in order: the user-level file, the project-level
    /// file, then the environment; then finish.
    pub fn from_layers(
        data_dir: String,
        default_model: String,
        user: Option<PartialConfig>,
        project: Option<PartialConfig>,
        env: &EnvOverrides,
    ) -> (r: Result<AgentConfig, String>)
        ensures
            ({
                let d = AgentConfig::default_config_spec(data_dir@, default_model@);
                let u = match user { Some(p) => merge_spec(d, p), None => d };
                let p = match project { Some(q) => merge_spec(u, q), None => u };
                let e = apply_env_spec(p, *env);
                &&& e.api_key.len() == 0 ==> r is Err
                &&& e.api_key.len() > 0 ==> (r matches Ok(c) && c@ == (AgentConfigModel {
                    base_url: trim_trailing_slashes(e.base_url),
                    ..e
                }))
            }),
    {
        let mut config = AgentConfig::default_config(default_model);
        config.data_dir = data_dir;
        match &user {
            Some(p) => config.merge(p),
            None => {},
        }
        match &project {
            Some(p) => config.merge(p),
            None => {},
        }
        config.apply_env(env);
        config.finish()
    }

    pub open spec fn default_config_spec(data_dir: Seq<char>, default_model: Seq<char>) -> AgentConfigModel {
        AgentConfigModel {
            base_url: default_base_url(),
            api_key: Seq::empty(),
            model: default_model,
            max_tokens: DEFAULT_MAX_TOKENS,
            max_iterations: DEFAULT_MAX_ITERATIONS,
            timeout_secs: DEFAULT_TIMEOUT_SECS,
            token: Seq::empty(),
            allow_from: Seq::empty(),
            data_dir: data_dir,
        }
    }
}

} // verus!
