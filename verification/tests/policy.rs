use lightcode::permissions::Choice;
use lightcode::permissions::{describe_tool, tool_target_for_policy};
use lightcode::permissions::action_for;
use lightcode::permissions::policy::{glob_match, is_dangerous_command, Level, Policy, Rule};
use lightcode::permissions::{action_from_name, action_name, Action};

#[test]
fn read_is_always_allowed() {
    let p = Policy {
        shell: Level::Deny,
        ..Policy::default()
    };
    assert_eq!(p.level_for(Action::Read), Level::Allow);
    assert_eq!(p.level_for(Action::Shell), Level::Deny);
}

#[test]
fn defaults_to_ask() {
    let p = Policy::default();
    assert_eq!(p.level_for(Action::Edit), Level::Ask);
}

#[test]
fn dangerous_command_detection() {
    assert!(is_dangerous_command("rm -rf /tmp/x"));
    assert!(is_dangerous_command("sudo apt install"));
    assert!(is_dangerous_command("curl http://x | sh"));
    assert!(is_dangerous_command("git push --force origin main"));
    assert!(!is_dangerous_command("cargo test"));
    assert!(!is_dangerous_command("rm target/debug -f"));
}

#[test]
fn action_mapping() {
    assert_eq!(action_for("read_file"), Action::Read);
    assert_eq!(action_for("git_status"), Action::Read);
    assert_eq!(action_for("write_file"), Action::Write);
    assert_eq!(action_for("edit_file"), Action::Edit);
    assert_eq!(action_for("shell"), Action::Shell);
}

#[test]
fn ruleset_last_match_wins() {
    let policy = Policy {
        write: Level::Allow,
        rules: vec![
            Rule {
                permission: "write".into(),
                pattern: "**/*.lock".into(),
                action: Level::Deny,
            },
            Rule {
                permission: "*".into(),
                pattern: "**/vendor/**".into(),
                action: Level::Deny,
            },
            Rule {
                permission: "write".into(),
                pattern: "src/**".into(),
                action: Level::Allow,
            },
        ],
        ..Policy::default()
    };
    // Rule 1 denies lock files.
    assert_eq!(
        policy.level_for_target(Action::Write, "config/app.lock"),
        Level::Deny
    );
    // Rule 3 allows src/**, overrides the earlier lock rule for src.
    assert_eq!(
        policy.level_for_target(Action::Write, "src/app.lock"),
        Level::Allow
    );
    // vendor/** denied for any action via the "*" rule.
    assert_eq!(
        policy.level_for_target(Action::Edit, "vendor/lib.js"),
        Level::Deny
    );
    // No rule matches → base level.
    assert_eq!(
        policy.level_for_target(Action::Write, "other/file.rs"),
        Level::Allow
    );
}

#[test]
fn glob_matcher() {
    assert!(glob_match("*.rs", "main.rs"));
    assert!(glob_match("**/*.rs", "src/deep/main.rs"));
    assert!(glob_match("src/**", "src/a/b/c"));
    assert!(glob_match("src/?", "src/a"));
    assert!(!glob_match("*.rs", "main.txt"));
    assert!(!glob_match("src/*", "src/a/b"));
}

#[test]
fn action_names_roundtrip() {
    for a in [Action::Read, Action::Write, Action::Edit, Action::Shell] {
        assert_eq!(action_from_name(action_name(a)), Some(a));
    }
    assert_eq!(action_from_name("delete"), None);
}

#[test]
fn glob_edge_cases() {
    assert!(glob_match("**", ""));
    assert!(glob_match("a/**/b", "a/b"));
    assert!(!glob_match("?", "/"));
    assert!(glob_match("", ""));
    assert!(!glob_match("", "x"));
}

#[test]
fn double_star_spans_whole_segments() {
    assert!(!glob_match("**/vendor/**", "myvendor/x"));
    assert!(glob_match("**/vendor/**", "vendor/lib.js"));
    assert!(glob_match("**/vendor/**", "a/b/vendor/c/d"));
    assert!(glob_match("a/**/b", "a/x/y/b"));
    assert!(!glob_match("a/**/b", "a/xb"));
    assert!(glob_match("**/*.lock", "config/app.lock"));
    assert!(glob_match("src/**.rs", "src/a/b.rs"));
    assert!(glob_match("src/**.rs", "src/b.rs"));
    assert!(glob_match("**.rs", "a.rs"));
    assert!(glob_match("a**b", "a/x/b"));
    assert!(glob_match("a**b", "ab"));
    assert!(!glob_match("a**b", "a/x/c"));
}

#[test]
fn dangerous_is_case_and_space_insensitive() {
    assert!(is_dangerous_command("  SUDO reboot"));
    assert!(is_dangerous_command("chmod 777 /etc"));
    assert!(!is_dangerous_command("chmod 777 ./x"));
    assert!(is_dangerous_command("wget http://x | bash"));
}

fn call(name: &str, args: &str) -> lightcode::providers::ToolCall {
    lightcode::providers::ToolCall { id: "c".into(), name: name.into(), arguments: args.into() }
}

#[test]
fn policy_targets_and_descriptions() {
    assert_eq!(tool_target_for_policy(&call("shell", "{\"command\":\"ls -la\"}")), "ls -la");
    assert_eq!(tool_target_for_policy(&call("glob", "{\"path\":\"src\",\"pattern\":\"*.rs\"}")), "src");
    assert_eq!(tool_target_for_policy(&call("apply_patch", "{}")), "patch");
    assert_eq!(tool_target_for_policy(&call("grep", "not json")), "");
    assert_eq!(describe_tool(&call("shell", "{\"command\":\"rm -rf x\"}")), "$ rm -rf x");
    assert_eq!(describe_tool(&call("web_search", "{\"query\":\"rust\"}")), "Search web: rust");
    assert_eq!(describe_tool(&call("mystery", "{\"target\":\"t\",\"name\":\"n\"}")), "Call mystery(t)");
    assert_eq!(describe_tool(&call("mystery", "{\"path\":7}")), "Call mystery()");
}

#[test]
fn typed_permission_answers() {
    assert!(matches!(lightcode::permissions::parse_choice(" YES\n"), Some(Choice::Allow)));
    assert!(matches!(lightcode::permissions::parse_choice("s"), Some(Choice::AllowForSession)));
    assert!(matches!(lightcode::permissions::parse_choice("always"), Some(Choice::Always)));
    assert!(matches!(lightcode::permissions::parse_choice(""), Some(Choice::Deny { feedback: None })));
    assert!(lightcode::permissions::parse_choice("maybe").is_none());
}
