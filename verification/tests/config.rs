use lightcode::config::{
    api_key_env, default_config_path, default_max_context_tokens, default_max_goal_turns,
    default_max_iterations, default_provider, platform_config_dir, ProviderConfig, ProviderOptions,
};

#[test]
fn api_key_env_name() {
    assert_eq!(api_key_env("openrouter"), "OPENROUTER_API_KEY");
    assert_eq!(api_key_env("my-llm"), "MY_LLM_API_KEY");
}

#[test]
fn options_block_is_a_fallback() {
    let mut p = ProviderConfig::default();
    assert_eq!(p.resolved_base_url(), None);
    p.options = Some(ProviderOptions {
        base_url: Some("http://nested".to_string()),
        api_key: Some("k2".to_string()),
    });
    assert_eq!(p.resolved_base_url().as_deref(), Some("http://nested"));
    assert_eq!(p.resolved_api_key().as_deref(), Some("k2"));
    p.base_url = Some("http://direct".to_string());
    p.api_key = Some(String::new());
    assert_eq!(p.resolved_base_url().as_deref(), Some("http://direct"));
    assert_eq!(p.resolved_api_key().as_deref(), Some(""));
}

#[test]
fn defaults() {
    assert_eq!(default_provider(), "openai");
    assert_eq!(default_max_context_tokens(), 60_000);
    assert_eq!(default_max_iterations(), 50);
    assert_eq!(default_max_goal_turns(), 10);
}

#[test]
fn config_paths() {
    assert_eq!(platform_config_dir("/home/u", false), "/home/u/.config/lightcode");
    assert_eq!(
        default_config_path("/Users/u/", true),
        "/Users/u/Library/Application Support/lightcode/config.toml"
    );
    assert_eq!(default_config_path("", false), ".config/lightcode/config.toml");
}
