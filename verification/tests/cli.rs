use lightcode::cli::{
    build_init_toml, default_base_url, default_model, is_known_provider, toml_key, toml_str,
};
use lightcode::config::ProviderConfig;

fn parse(text: &str) -> toml::Value {
    toml::from_str(text).unwrap()
}

#[test]
fn init_toml_roundtrips_for_known_provider() {
    let text = build_init_toml("opencode-go", "deepseek-v4-flash", "zen-key", None);
    let cfg = parse(&text);
    assert_eq!(cfg["agent"]["provider"].as_str(), Some("opencode-go"));
    assert_eq!(cfg["agent"]["max_context_tokens"].as_integer(), Some(60_000));
    assert_eq!(cfg["provider"]["opencode-go"]["model"].as_str(), Some("deepseek-v4-flash"));
    assert_eq!(cfg["provider"]["opencode-go"]["api_key"].as_str(), Some("zen-key"));
    assert_eq!(cfg["permissions"]["shell"].as_str(), Some("ask"));
}

#[test]
fn init_toml_skips_key_when_empty() {
    let text = build_init_toml("openai", "gpt-4o-mini", "", None);
    let cfg = parse(&text);
    assert!(cfg["provider"]["openai"].get("api_key").is_none());
}

#[test]
fn init_toml_custom_provider_with_base_url() {
    let text = build_init_toml("lokal-kantor", "codex/gpt-5.6-sol", "", Some("http://host/v1"));
    let cfg = parse(&text);
    let table = &cfg["provider"]["lokal-kantor"];
    let p = ProviderConfig {
        model: table["model"].as_str().unwrap().to_string(),
        base_url: table.get("base_url").and_then(|v| v.as_str()).map(|s| s.to_string()),
        ..Default::default()
    };
    assert_eq!(p.resolved_base_url().as_deref(), Some("http://host/v1"));
}

#[test]
fn init_toml_quotes_odd_provider_names() {
    let text = build_init_toml("my prov", "m", "", None);
    assert!(text.contains(r#"[provider."my prov"]"#));
    let cfg = parse(&text);
    assert!(cfg["provider"].get("my prov").is_some());
}

#[test]
fn toml_strings_are_escaped() {
    let s = toml_str(r#"a"b\c"#);
    // Must be valid TOML that round-trips (quotes/backslashes survive).
    let doc: toml::Value = toml::from_str(&format!("x = {s}")).unwrap();
    assert_eq!(doc["x"].as_str(), Some(r#"a"b\c"#));
    assert_eq!(toml_key("plain-name"), "plain-name");
    assert_eq!(toml_key("with space"), r#""with space""#);
}

#[test]
fn init_toml_exact_layout() {
    let text = build_init_toml("openai", "", "", Some(""));
    assert_eq!(
        text,
        "# LightCode configuration — written by `lightcode init`.\n\
         # See README for all available options.\n\n\
         [agent]\nprovider = \"openai\"\nmax_context_tokens = 60000\n\n\
         [provider.openai]\n\n[permissions]\nshell = \"ask\"\nedit = \"ask\"\nwrite = \"ask\"\n"
    );
}

#[test]
fn provider_defaults() {
    assert_eq!(default_base_url("openai").unwrap(), "https://api.openai.com/v1");
    assert_eq!(default_base_url("openrouter").unwrap(), "https://openrouter.ai/api/v1");
    assert_eq!(
        default_base_url("acme").unwrap_err(),
        "provider 'acme' has no default endpoint; set [provider.acme].base_url or implement it"
    );
    assert_eq!(default_model("opencode-go"), "deepseek-v4-flash");
    assert_eq!(default_model("anthropic"), "sonnet-4-5");
    assert_eq!(default_model("acme"), "gpt-4o-mini");
    assert!(is_known_provider("openrouter"));
    assert!(!is_known_provider("acme"));
}
