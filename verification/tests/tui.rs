use lightcode::tui::app::{SessionItem, SessionPicker, ToolState};
use lightcode::tui::{classify_tool_output, diff_file, filtered_sessions, parse_i32, short_title};

fn item(id: &str, title: &str) -> SessionItem {
    SessionItem { id: id.to_string(), title: title.to_string(), created_at: String::new() }
}

#[test]
fn short_title_truncates_long_paths() {
    assert_eq!(short_title("/home/me"), "/home/me");
    let long = "x".repeat(50);
    let t = short_title(&long);
    assert_eq!(t.chars().count(), 40);
    assert!(t.ends_with('…'));
}

#[test]
fn session_filter_matches_title_or_id() {
    let p = SessionPicker {
        sessions: vec![item("abc123", "Fix Parser"), item("def456", "Write docs")],
        selected: 0,
        filter: "PARSER".to_string(),
    };
    let r = filtered_sessions(&p);
    assert_eq!(r.len(), 1);
    assert_eq!(r[0].id, "abc123");
    let p2 = SessionPicker { filter: "def".to_string(), ..p.clone() };
    assert_eq!(filtered_sessions(&p2)[0].title, "Write docs");
    let p3 = SessionPicker { filter: String::new(), ..p };
    assert_eq!(filtered_sessions(&p3).len(), 2);
}

#[test]
fn diff_file_from_headers() {
    assert_eq!(diff_file("diff --git a/src/x.rs b/src/x.rs\nindex 1..2\n"), "src/x.rs");
    assert_eq!(diff_file("--- a/y.rs\n+++ b/y.rs\n@@ -1 +1 @@\n"), "y.rs");
    assert_eq!(diff_file("nothing here"), "git diff");
}

#[test]
fn tool_outputs_are_classified() {
    assert_eq!(classify_tool_output("tool error: boom"), ToolState::Failed);
    assert_eq!(classify_tool_output("permission denied by user"), ToolState::Failed);
    assert_eq!(classify_tool_output("$ false\nexit code: 1\n"), ToolState::Failed);
    assert_eq!(classify_tool_output("$ true\nexit code: 0\n"), ToolState::Success);
    assert_eq!(classify_tool_output("exit code: x"), ToolState::Success);
    assert_eq!(classify_tool_output("all good"), ToolState::Success);
}

#[test]
fn i32_parsing_follows_std() {
    assert_eq!(parse_i32(&"-12".chars().collect::<Vec<_>>()), Some(-12));
    assert_eq!(parse_i32(&"+7".chars().collect::<Vec<_>>()), Some(7));
    assert_eq!(parse_i32(&"2147483647".chars().collect::<Vec<_>>()), Some(i32::MAX));
    assert_eq!(parse_i32(&"-2147483648".chars().collect::<Vec<_>>()), Some(i32::MIN));
    assert_eq!(parse_i32(&"2147483648".chars().collect::<Vec<_>>()), None);
    assert_eq!(parse_i32(&"-".chars().collect::<Vec<_>>()), None);
    assert_eq!(parse_i32(&"1a".chars().collect::<Vec<_>>()), None);
}
