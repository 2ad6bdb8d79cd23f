use lightcode::agent::AgentMode;
use lightcode::tui::app::{App, StatusInfo, ToolBlock, ToolKind, ToolState, UiBlock};
use lightcode::tui::editor::EditorAction;

fn test_app() -> App {
    App::new(StatusInfo {
        model: "m".into(),
        provider: "p".into(),
        session: String::new(),
        cwd: ".".into(),
        workspace: ".".into(),
        models: vec![],
        history: vec![],
        agents: vec![],
        mode: AgentMode::Build,
    })
}

#[test]
fn small_paste_inserts_directly() {
    let mut app = test_app();
    app.handle_paste("hello world");
    assert_eq!(app.input.text(), "hello world");
    assert!(app.pastes.is_empty());

    // A second paste lands at the cursor.
    app.input.apply(EditorAction::MoveToDocEnd);
    app.handle_paste("hello\nworld\nfoo\nbar");
    assert_eq!(app.input.text(), "hello worldhello\nworld\nfoo\nbar");
    assert!(app.pastes.is_empty());
    // Multiline paste is one logical op: undoing removes all of it.
    app.input.apply(EditorAction::Undo);
    assert_eq!(app.input.text(), "hello world");
}

#[test]
fn large_paste_becomes_placeholder() {
    let mut app = test_app();
    let big = (0..500).map(|i| format!("line {i}")).collect::<Vec<_>>().join("\n");
    app.handle_paste(&big);
    assert_eq!(app.pastes.len(), 1);
    let text = app.input.text();
    assert!(text.contains("[Pasted text · 500 lines ·"));
    assert!(app.is_paste_placeholder(text.trim()));
}

#[test]
fn submit_expands_placeholder_to_full_content() {
    let mut app = test_app();
    let big = (0..50).map(|i| format!("line {i}")).collect::<Vec<_>>().join("\n");
    app.handle_paste(&big);
    let placeholder = app.input.text().trim().to_string();
    let prompt = app.submit().unwrap();
    assert_eq!(prompt, big);
    assert!(app.pastes.is_empty());
    assert!(!prompt.contains("[Pasted text"));
    let _ = placeholder;
}

#[test]
fn expand_paste_at_cursor_replaces_line() {
    let mut app = test_app();
    let big = (0..30).map(|i| format!("line {i}")).collect::<Vec<_>>().join("\n");
    app.handle_paste(&big);
    assert_eq!(app.pastes.len(), 1);
    app.input.apply(EditorAction::MoveToDocStart);
    assert!(app.expand_paste_at_cursor());
    assert_eq!(app.input.text(), big);
}

#[test]
fn paste_normalizes_crlf() {
    let mut app = test_app();
    app.handle_paste("a\r\nb\r\nc");
    assert_eq!(app.input.text(), "a\nb\nc");
}

#[test]
fn reasoning_lifecycle_finalizes() {
    let mut app = test_app();
    // First reasoning chunk starts a block; further chunks continue it.
    assert!(app.begin_or_continue_reasoning());
    assert!(!app.begin_or_continue_reasoning());
    // Moving on finalizes it.
    app.finalize_reasoning();
    match &app.content[0] {
        UiBlock::Reasoning { done: Some(d), .. } => assert!(*d >= std::time::Duration::ZERO),
        _ => panic!("expected done reasoning"),
    }
    // A later reasoning pass starts a fresh block.
    assert!(app.begin_or_continue_reasoning());
    assert_eq!(app.content.len(), 2);
}

#[test]
fn timeline_selection_moves_between_tools() {
    let mut app = test_app();
    app.push(UiBlock::User("q".into()));
    app.push(UiBlock::Assistant { text: "answer".into() });
    app.push(UiBlock::Tool(ToolBlock {
        kind: ToolKind::Grep,
        target: "foo".into(),
        state: ToolState::Success,
        output: "a:1:x".into(),
    }));
    app.select_next();
    assert_eq!(app.selected, Some(2));
    app.toggle_expanded(2);
    assert!(app.expanded.contains(&2));
    // Only collapsible items are selectable: User/Assistant skipped.
    app.select_next();
    assert_eq!(app.selected, None); // wraps out
    app.select_prev();
    assert_eq!(app.selected, Some(2));
}

#[test]
fn paste_then_edit_then_submit() {
    let mut app = test_app();
    app.handle_paste("hello\nworld");
    app.input.apply(EditorAction::MoveToDocEnd);
    app.input.apply(EditorAction::DeleteBackward);
    app.input.apply(EditorAction::InsertChar('X'));
    let prompt = app.submit().unwrap();
    assert_eq!(prompt, "hello\nworlX");
}

#[test]
fn copy_target_uses_selection_else_last_assistant() {
    let mut app = test_app();
    app.push(UiBlock::User("question".into()));
    app.push(UiBlock::Assistant { text: "the answer".into() });
    app.push(UiBlock::Tool(ToolBlock {
        kind: ToolKind::Shell,
        target: "$ echo hi".into(),
        state: ToolState::Success,
        output: "hi\nexit code: 0".into(),
    }));
    // No selection → last assistant message.
    assert_eq!(app.copy_target_text(), "the answer");
    // Selected tool block → its command + output.
    app.selected = Some(2);
    let t = app.copy_target_text();
    assert!(t.contains("echo hi"));
    assert!(t.contains("exit code: 0"));
}

#[test]
fn submit_records_history_and_mentions() {
    let mut app = test_app();
    app.history = vec!["look at @src/a.rs".into(), "older".into()];
    app.handle_paste("look at @src/a.rs");
    let p = app.submit().unwrap();
    assert_eq!(p, "look at @src/a.rs");
    assert_eq!(app.history, vec!["look at @src/a.rs".to_string(), "older".to_string()]);
    assert!(app.busy);
    assert_eq!(app.content.len(), 2);
    match &app.content[1] {
        UiBlock::Tool(tb) => assert_eq!(tb.target, "@src/a.rs"),
        _ => panic!("expected the mention line"),
    }
    assert!(app.input.is_empty());
    // Nothing to send: nothing changes.
    assert!(app.submit().is_none());
}

#[test]
fn history_navigation_keeps_the_draft() {
    let mut app = test_app();
    app.history = vec!["newest".into(), "oldest".into()];
    app.handle_paste("draft");
    app.history_prev();
    assert_eq!(app.input.text(), "oldest");
    app.history_prev();
    assert_eq!(app.input.text(), "newest");
    app.history_next();
    assert_eq!(app.input.text(), "oldest");
    app.history_next();
    assert_eq!(app.input.text(), "draft");
    assert!(app.history_idx.is_none());
}

#[test]
fn suggestions_follow_slash_commands() {
    let mut app = test_app();
    app.handle_paste("/mo");
    assert_eq!(app.suggestions, vec!["/models  <enter>".to_string()]);
    app.input.apply(EditorAction::InsertChar('d'));
    app.input.apply(EditorAction::InsertChar('e'));
    app.input.apply(EditorAction::InsertChar('l'));
    app.input.apply(EditorAction::InsertChar('s'));
    app.update_suggestions();
    assert_eq!(app.suggestions, vec!["/models  <enter>".to_string(), "  model: m".to_string()]);
}

#[test]
fn unique_placeholders_are_numbered() {
    let mut app = test_app();
    let big = "x\n".repeat(30);
    app.handle_paste(&big);
    app.handle_paste(&big);
    assert_eq!(app.pastes.len(), 2);
    assert_eq!(app.pastes[0].placeholder, "[Pasted text · 30 lines · 60 chars]");
    assert_eq!(app.pastes[1].placeholder, "[Pasted text · 30 lines · 60 chars] #2");
}
