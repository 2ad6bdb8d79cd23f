//! Configuration values the rest of the program reads: provider settings,
//! named agents, defaults, and the names derived from them.
use vstd::prelude::*;

use std::collections::HashMap;

use crate::text::{chars_of, ends_with, push_str_chars, string_of, uppercase, uppercase_of};

verus! {

/// A named agent configuration from `[agents.<name>]`.
#[derive(Debug, Clone, Default)]
pub struct AgentDef {
    pub model: Option<String>,
    pub system_prompt: Option<String>,
}

/// Optional dedicated evaluator model for goal completion checks.
#[derive(Debug, Clone, Default)]
pub struct EvaluatorConfig {
    pub provider: Option<String>,
    pub model: Option<String>,
}

#[derive(Debug, Clone, Default)]
pub struct ModelConfig {
    pub name: Option<String>,
}

/// opencode-style nested `options` block (baseURL / apiKey).
#[derive(Debug, Clone, Default)]
pub struct ProviderOptions {
    pub base_url: Option<String>,
    pub api_key: Option<String>,
}

#[derive(Debug, Clone, Default)]
pub struct ProviderConfig {
    pub model: String,
    pub api_key: Option<String>,
    pub base_url: Option<String>,
    pub max_tokens: Option<u32>,
    /// Available models: key = model id, value = optional metadata.
    pub models: HashMap<String, ModelConfig>,
    /// opencode-style `options` block, merged as a fallback for base_url/api_key.
    pub options: Option<ProviderOptions>,
}

/// The string view of an optional string.
pub open spec fn opt_view(o: Option<String>) -> Option<Seq<char>> {
    match o {
        Some(s) => Some(s@),
        None => None,
    }
}

/// A value set directly wins over the same value in the `options` block.
pub open spec fn first_set(direct: Option<String>, nested: Option<String>) -> Option<Seq<char>> {
    match direct {
        Some(s) => Some(s@),
        None => opt_view(nested),
    }
}

fn clone_opt(o: &Option<String>) -> (r: Option<String>)
    ensures
        opt_view(r) == opt_view(*o),
{
    match o {
        Some(s) => Some(s.clone()),
        None => None,
    }
}

impl ProviderConfig {
    pub fn resolved_base_url(&self) -> (r: Option<String>)
        ensures
            opt_view(r) == first_set(
                self.base_url,
                match self.options {
                    Some(o) => o.base_url,
                    None => None,
                },
            ),
    {
        match &self.base_url {
            Some(u) => Some(u.clone()),
            None => match &self.options {
                Some(o) => clone_opt(&o.base_url),
                None => None,
            },
        }
    }

    pub fn resolved_api_key(&self) -> (r: Option<String>)
        ensures
            opt_view(r) == first_set(
                self.api_key,
                match self.options {
                    Some(o) => o.api_key,
                    None => None,
                },
            ),
    {
        match &self.api_key {
            Some(k) => Some(k.clone()),
            None => match &self.options {
                Some(o) => clone_opt(&o.api_key),
                None => None,
            },
        }
    }
}

pub fn default_provider() -> (r: String)
    ensures
        r@ == "openai"@,
{
    String::from_str("openai")
}

pub fn default_max_context_tokens() -> (r: usize)
    ensures
        r == 60_000,
{
    60_000
}

/// Tool-loop iterations allowed per request.
pub const MAX_ITERATIONS: usize = 50;

pub fn default_max_iterations() -> (r: usize)
    ensures
        r == MAX_ITERATIONS,
{
    MAX_ITERATIONS
}

pub fn default_max_goal_turns() -> (r: u32)
    ensures
        r == 10,
{
    10
}

/// `p` with every `-` replaced by `_`.
pub open spec fn dashes_to_underscores(p: Seq<char>) -> Seq<char> {
    Seq::new(p.len(), |k: int| if p[k] == '-' { '_' } else { p[k] })
}

/// The environment variable that holds a provider's API key:
/// `<PROVIDER>_API_KEY`, uppercased, with `-` written as `_`.
pub open spec fn api_key_env_spec(provider: Seq<char>) -> Seq<char> {
    dashes_to_underscores(uppercase_of(provider)) + "_API_KEY"@
}

/// Build the human-readable env var name for a provider, for error messages.
pub fn api_key_env(provider: &str) -> (r: String)
    ensures
        r@ == api_key_env_spec(provider@),
{
    let up = uppercase(&chars_of(provider));
    let mut out: Vec<char> = Vec::new();
    let mut k: usize = 0;
    while k < up.len()
        invariant
            k <= up@.len(),
            out@ =~= dashes_to_underscores(up@).take(k as int),
        decreases up@.len() - k,
    {
        out.push(if up[k] == '-' {
            '_'
        } else {
            up[k]
        });
        k += 1;
    }
    push_str_chars(&mut out, "_API_KEY");
    assert(dashes_to_underscores(up@).take(k as int) =~= dashes_to_underscores(up@));
    string_of(&out)
}

/// `Path::join` for a relative `child`: a `/` between the two unless the
/// base is empty or already ends with one.
pub open spec fn path_join(base: Seq<char>, child: Seq<char>) -> Seq<char> {
    if base.len() == 0 {
        child
    } else if base.last() == '/' {
        base + child
    } else {
        base + seq!['/'] + child
    }
}

pub fn join_path(base: &Vec<char>, child: &str) -> (r: Vec<char>)
    ensures
        r@ == path_join(base@, child@),
{
    let mut out = crate::text::slice_chars(base, 0, base.len());
    assert(out@ =~= base@);
    if base.len() > 0 && base[base.len() - 1] != '/' {
        out.push('/');
    }
    push_str_chars(&mut out, child);
    out
}

/// The per-user configuration directory under `home`. On macOS:
/// `~/Library/Application Support/lightcode`; elsewhere `~/.config/lightcode`.
pub open spec fn platform_config_dir_spec(home: Seq<char>, macos: bool) -> Seq<char> {
    if macos {
        path_join(path_join(path_join(home, "Library"@), "Application Support"@), "lightcode"@)
    } else {
        path_join(path_join(home, ".config"@), "lightcode"@)
    }
}

pub fn platform_config_dir(home: &str, macos: bool) -> (r: String)
    ensures
        r@ == platform_config_dir_spec(home@, macos),
{
    let h = chars_of(home);
    let d = if macos {
        let a = join_path(&h, "Library");
        let b = join_path(&a, "Application Support");
        join_path(&b, "lightcode")
    } else {
        let a = join_path(&h, ".config");
        join_path(&a, "lightcode")
    };
    string_of(&d)
}

/// Default path `lightcode init` writes to: `~/.config/lightcode/config.toml`
/// (macOS: `~/Library/Application Support/lightcode/config.toml`).
pub fn default_config_path(home: &str, macos: bool) -> (r: String)
    ensures
        r@ == path_join(platform_config_dir_spec(home@, macos), "config.toml"@),
{
    let dir = chars_of(platform_config_dir(home, macos).as_str());
    string_of(&join_path(&dir, "config.toml"))
}

} // verus!
