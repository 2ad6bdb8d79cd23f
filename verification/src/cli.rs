//! The starter configuration that `lightcode init` writes, and the
//! defaults of the built-in providers.
use vstd::prelude::*;

use crate::text::{chars_of, push_str_chars, string_of};

verus! {

/// The TOML basic or literal string that encodes `s`, as the `toml` crate
/// writes a string value.
pub uninterp spec fn toml_string_literal(s: Seq<char>) -> Seq<char>;

/// Serialize a value as a TOML string literal (quoted and escaped).
/// Calls `toml::Value::String(s).to_string()`; claimed: the result is
/// `toml_string_literal(s)`, a function of `s` alone. Which quoting style the
/// crate picks is not stated.
#[verifier::external_body]
pub fn toml_str(s: &str) -> (r: String)
    ensures
        r@ == toml_string_literal(s@),
{
    toml::Value::String(s.to_string()).to_string()
}

/// A character that may stand in a bare TOML key.
pub open spec fn bare_key_char(c: char) -> bool {
    ('a' <= c <= 'z') || ('A' <= c <= 'Z') || ('0' <= c <= '9') || c == '-' || c == '_'
}

pub open spec fn toml_key_spec(s: Seq<char>) -> Seq<char> {
    if forall|i: int| 0 <= i < s.len() ==> bare_key_char(#[trigger] s[i]) {
        s
    } else {
        toml_string_literal(s)
    }
}

/// Render a key as a TOML bare key when safe, otherwise as a quoted key.
pub fn toml_key(s: &str) -> (r: String)
    ensures
        r@ == toml_key_spec(s@),
{
    let v = chars_of(s);
    let mut i: usize = 0;
    while i < v.len()
        invariant
            v@ == s@,
            i <= v@.len(),
            forall|k: int| 0 <= k < i ==> bare_key_char(#[trigger] v@[k]),
        decreases v.len() - i,
    {
        let c = v[i];
        if !(('a' <= c && c <= 'z') || ('A' <= c && c <= 'Z') || ('0' <= c && c <= '9') || c == '-'
            || c == '_') {
            assert(!bare_key_char(v@[i as int]));
            return toml_str(s);
        }
        i += 1;
    }
    string_of(&v)
}

/// `key = <quoted value>` and a newline.
pub open spec fn toml_entry(key: Seq<char>, value: Seq<char>) -> Seq<char> {
    key + " = "@ + toml_string_literal(value) + "\n"@
}

/// The starter configuration: the provider under `[agent]` with a 60000
/// token context, its `[provider.<name>]` table with the base URL, model
/// and API key that are not empty, and `ask` for shell, edit and write.
pub open spec fn init_toml(provider: Seq<char>, model: Seq<char>, api_key: Seq<char>, base_url: Option<Seq<char>>) -> Seq<char> {
    "# LightCode configuration — written by `lightcode init`.\n"@
        + "# See README for all available options.\n\n"@
        + "[agent]\n"@
        + toml_entry("provider"@, provider)
        + "max_context_tokens = 60000\n\n"@
        + "[provider."@ + toml_key_spec(provider) + "]\n"@
        + (match base_url {
            Some(b) if b.len() > 0 => toml_entry("base_url"@, b),
            _ => Seq::<char>::empty(),
        })
        + (if model.len() > 0 { toml_entry("model"@, model) } else { Seq::<char>::empty() })
        + (if api_key.len() > 0 { toml_entry("api_key"@, api_key) } else { Seq::<char>::empty() })
        + "\n[permissions]\n"@
        + "shell = \"ask\"\n"@
        + "edit = \"ask\"\n"@
        + "write = \"ask\"\n"@
}

fn push_entry(out: &mut Vec<char>, key: &str, value: &str)
    ensures
        final(out)@ == old(out)@ + toml_entry(key@, value@),
{
    push_str_chars(out, key);
    push_str_chars(out, " = ");
    let q = toml_str(value);
    push_str_chars(out, q.as_str());
    push_str_chars(out, "\n");
}

/// Build the starter config file content for `lightcode init`.
pub fn build_init_toml(provider: &str, model: &str, api_key: &str, base_url: Option<&str>) -> (r: String)
    ensures
        r@ == init_toml(
            provider@,
            model@,
            api_key@,
            match base_url {
                Some(b) => Some(b@),
                None => None,
            },
        ),
{
    let mut out: Vec<char> = Vec::new();
    push_str_chars(&mut out, "# LightCode configuration — written by `lightcode init`.\n");
    push_str_chars(&mut out, "# See README for all available options.\n\n");
    push_str_chars(&mut out, "[agent]\n");
    push_entry(&mut out, "provider", provider);
    push_str_chars(&mut out, "max_context_tokens = 60000\n\n");
    push_str_chars(&mut out, "[provider.");
    let k = toml_key(provider);
    push_str_chars(&mut out, k.as_str());
    push_str_chars(&mut out, "]\n");
    let ghost head = out@;
    if let Some(b) = base_url {
        if crate::text::str_byte_len(b) > 0 {
            push_entry(&mut out, "base_url", b);
        } else {
            proof {
                crate::text::lemma_byte_len_zero(b@);
            }
        }
    }
    let ghost with_url = out@;
    if crate::text::str_byte_len(model) > 0 {
        push_entry(&mut out, "model", model);
    } else {
        proof {
            crate::text::lemma_byte_len_zero(model@);
        }
    }
    let ghost with_model = out@;
    if crate::text::str_byte_len(api_key) > 0 {
        push_entry(&mut out, "api_key", api_key);
    } else {
        proof {
            crate::text::lemma_byte_len_zero(api_key@);
        }
    }
    push_str_chars(&mut out, "\n[permissions]\n");
    push_str_chars(&mut out, "shell = \"ask\"\n");
    push_str_chars(&mut out, "edit = \"ask\"\n");
    push_str_chars(&mut out, "write = \"ask\"\n");
    string_of(&out)
}

/// The providers with a built-in endpoint and default model.
pub open spec fn known_provider(name: Seq<char>) -> bool {
    name == "openai"@ || name == "opencode-go"@ || name == "openrouter"@ || name == "anthropic"@
}

/// Whether `name` is a provider that needs no `base_url` of its own.
pub fn is_known_provider(name: &str) -> (r: bool)
    ensures
        r == known_provider(name@),
{
    let n = chars_of(name);
    crate::text::eq_str(&n, "openai") || crate::text::eq_str(&n, "opencode-go")
        || crate::text::eq_str(&n, "openrouter") || crate::text::eq_str(&n, "anthropic")
}

pub open spec fn default_base_url_spec(name: Seq<char>) -> Option<Seq<char>> {
    if name == "openai"@ {
        Some("https://api.openai.com/v1"@)
    } else if name == "opencode-go"@ {
        Some("https://opencode.ai/zen/go/v1"@)
    } else if name == "openrouter"@ {
        Some("https://openrouter.ai/api/v1"@)
    } else {
        None
    }
}

pub open spec fn no_endpoint_message(name: Seq<char>) -> Seq<char> {
    "provider '"@ + name + "' has no default endpoint; set [provider."@ + name
        + "].base_url or implement it"@
}

/// The endpoint of an OpenAI-compatible provider that has one built in;
/// else an error that says how to set one.
pub fn default_base_url(name: &str) -> (r: Result<String, String>)
    ensures
        match default_base_url_spec(name@) {
            Some(u) => r matches Ok(s) && s@ == u,
            None => r matches Err(e) && e@ == no_endpoint_message(name@),
        },
{
    let n = chars_of(name);
    if crate::text::eq_str(&n, "openai") {
        Ok(String::from_str("https://api.openai.com/v1"))
    } else if crate::text::eq_str(&n, "opencode-go") {
        Ok(String::from_str("https://opencode.ai/zen/go/v1"))
    } else if crate::text::eq_str(&n, "openrouter") {
        Ok(String::from_str("https://openrouter.ai/api/v1"))
    } else {
        let mut m: Vec<char> = Vec::new();
        push_str_chars(&mut m, "provider '");
        push_str_chars(&mut m, name);
        push_str_chars(&mut m, "' has no default endpoint; set [provider.");
        push_str_chars(&mut m, name);
        push_str_chars(&mut m, "].base_url or implement it");
        Err(string_of(&m))
    }
}

pub open spec fn default_model_spec(name: Seq<char>) -> Seq<char> {
    if name == "opencode-go"@ {
        "deepseek-v4-flash"@
    } else if name == "anthropic"@ {
        "sonnet-4-5"@
    } else {
        "gpt-4o-mini"@
    }
}

/// The model a provider falls back to when none is configured.
pub fn default_model(name: &str) -> (r: String)
    ensures
        r@ == default_model_spec(name@),
{
    let n = chars_of(name);
    if crate::text::eq_str(&n, "opencode-go") {
        String::from_str("deepseek-v4-flash")
    } else if crate::text::eq_str(&n, "anthropic") {
        String::from_str("sonnet-4-5")
    } else {
        String::from_str("gpt-4o-mini")
    }
}

} // verus!
