use lightcode::agent::{AgentEvent, AgentMode};
use lightcode::permissions::Choice;
use lightcode::tui::app::{App, Command, DiffViewer, StatusInfo, ToolKind, ToolState, UiBlock};
use lightcode::tui::keys::{KeyCode, KeyEvent, KeyModifiers};
use lightcode::tui::{handle_agent, handle_key, run_command, KeyAction, UiCommand};

fn test_app() -> App {
    App::new(StatusInfo {
        model: "m".into(),
        provider: "p".into(),
        session: "s1".into(),
        cwd: "/w".into(),
        workspace: "/w".into(),
        models: vec![],
        history: vec![],
        agents: vec![],
        mode: AgentMode::Build,
    })
}

fn press(app: &mut App, code: KeyCode) -> KeyAction {
    handle_key(app, KeyEvent::new(code, KeyModifiers::empty()), false, None)
}

fn ctrl(app: &mut App, c: char) -> KeyAction {
    let m = KeyModifiers { control: true, ..KeyModifiers::empty() };
    handle_key(app, KeyEvent::new(KeyCode::Char(c), m), false, None)
}

fn type_text(app: &mut App, s: &str) {
    for c in s.chars() {
        press(app, KeyCode::Char(c));
    }
}

#[test]
fn ctrl_c_quits_and_typing_edits() {
    let mut app = test_app();
    type_text(&mut app, "hi");
    assert_eq!(app.input.text(), "hi");
    assert!(matches!(ctrl(&mut app, 'c'), KeyAction::Nothing));
    assert!(app.quit);
}

#[test]
fn enter_submits_prompt() {
    let mut app = test_app();
    type_text(&mut app, "explain this");
    match press(&mut app, KeyCode::Enter) {
        KeyAction::Submit(p) => assert_eq!(p, "explain this"),
        _ => panic!("expected a submit"),
    }
    assert!(app.busy);
    // Esc while busy interrupts.
    assert!(matches!(press(&mut app, KeyCode::Esc), KeyAction::Cancel));
}

#[test]
fn slash_commands_open_pickers_and_switch_modes() {
    let mut app = test_app();
    type_text(&mut app, "/mode plan");
    match press(&mut app, KeyCode::Enter) {
        KeyAction::Send(UiCommand::SetMode(m)) => assert_eq!(m, AgentMode::Plan),
        _ => panic!("expected a mode change"),
    }
    assert_eq!(app.mode, AgentMode::Plan);
    assert!(app.input.is_empty());
    type_text(&mut app, "/mode nope");
    assert!(matches!(press(&mut app, KeyCode::Enter), KeyAction::Nothing));
    assert_eq!(app.toast.as_ref().unwrap().0, "Unknown mode: nope. Available: plan, build, auto");
    app.input.clear();
    type_text(&mut app, "/sessions");
    assert!(matches!(press(&mut app, KeyCode::Enter), KeyAction::OpenSessions));
    app.input.clear();
    type_text(&mut app, "/rename  New title ");
    match press(&mut app, KeyCode::Enter) {
        KeyAction::Rename(t) => assert_eq!(t, "New title"),
        _ => panic!("expected a rename"),
    }
}

#[test]
fn diff_viewer_takes_keys() {
    let mut app = test_app();
    app.diff_viewer = Some(DiffViewer { body: "+x".into(), scroll: 0 });
    press(&mut app, KeyCode::Down);
    press(&mut app, KeyCode::PageDown);
    assert_eq!(app.diff_viewer.as_ref().unwrap().scroll, 11);
    match press(&mut app, KeyCode::Char('y')) {
        KeyAction::Clipboard(t) => assert_eq!(t, "+x"),
        _ => panic!("expected a copy"),
    }
    press(&mut app, KeyCode::Char('q'));
    assert!(app.diff_viewer.is_none());
}

#[test]
fn permission_keys_answer() {
    let mut app = test_app();
    let (tx, _rx) = tokio::sync::oneshot::channel::<Choice>();
    handle_agent(&mut app, AgentEvent::Permission { prompt: "run ls?".into(), respond: tx });
    assert!(app.pending_permission.is_some());
    match press(&mut app, KeyCode::Char('s')) {
        KeyAction::Permit(_, c) => assert!(matches!(c, Choice::AllowForSession)),
        _ => panic!("expected an answer"),
    }
    assert!(app.pending_permission.is_none());
    let (tx, _rx) = tokio::sync::oneshot::channel::<Choice>();
    handle_agent(&mut app, AgentEvent::Permission { prompt: "rm?".into(), respond: tx });
    press(&mut app, KeyCode::Char('r'));
    type_text(&mut app, " no ");
    match press(&mut app, KeyCode::Enter) {
        KeyAction::Permit(_, Choice::Deny { feedback }) => assert_eq!(feedback.as_deref(), Some("no")),
        _ => panic!("expected a denial"),
    }
}

#[test]
fn agent_events_build_the_timeline() {
    let mut app = test_app();
    handle_agent(&mut app, AgentEvent::Reasoning("hm".into()));
    handle_agent(&mut app, AgentEvent::Text("Hel".into()));
    handle_agent(&mut app, AgentEvent::Text("lo".into()));
    assert!(matches!(&app.content[0], UiBlock::Reasoning { done: Some(_), .. }));
    assert!(matches!(&app.content[1], UiBlock::Assistant { text } if text == "Hello"));
    handle_agent(&mut app, AgentEvent::ToolStart { name: "shell".into(), args: "{\"command\":\"ls\"}".into() });
    assert!(matches!(&app.content[2], UiBlock::Tool(tb) if tb.target == "ls" && tb.state == ToolState::Running));
    handle_agent(&mut app, AgentEvent::ToolOutput { name: "shell".into(), output: "$ ls\nexit code: 2".into() });
    assert!(matches!(&app.content[2], UiBlock::Tool(tb) if tb.state == ToolState::Failed));
    handle_agent(&mut app, AgentEvent::ToolStart { name: "git_diff".into(), args: "{}".into() });
    handle_agent(&mut app, AgentEvent::ToolOutput {
        name: "git_diff".into(),
        output: "diff --git a/x.rs b/x.rs\n".into(),
    });
    assert!(matches!(&app.content[3], UiBlock::Diff { file, .. } if file == "x.rs"));
    handle_agent(&mut app, AgentEvent::ToolStart { name: "grep".into(), args: "{\"pattern\":\"fn\"}".into() });
    handle_agent(&mut app, AgentEvent::Done { ok: false, message: "boom".into() });
    assert!(matches!(&app.content[4], UiBlock::Tool(tb) if tb.kind == ToolKind::Grep && tb.state == ToolState::Success));
    assert!(matches!(&app.content[5], UiBlock::Error(m) if m == "boom"));
    assert_eq!(app.last_error.as_deref(), Some("boom"));
    assert!(!app.busy);
    handle_agent(&mut app, AgentEvent::Compact { removed: 3 });
    assert_eq!(app.toast.as_ref().unwrap().0, "Conversation compacted (3 messages folded).");
}

#[test]
fn status_and_stats_commands() {
    let mut app = test_app();
    app.push(UiBlock::User("abcd".into()));
    app.push(UiBlock::Assistant { text: "efgh".into() });
    run_command(&mut app, Command::Stats);
    match app.content.last().unwrap() {
        UiBlock::Assistant { text } => assert_eq!(
            text,
            "**Stats**\n\nuser: `1` · assistant: `1` · tool: `0`\nestimated tokens (chars/4): `2`\nmodel: `m`\nsession: `s1`"
        ),
        _ => panic!("expected the stats"),
    }
    run_command(&mut app, Command::Status);
    match app.content.last().unwrap() {
        UiBlock::Assistant { text } => assert_eq!(text, "**Status**\n\nmodel: `m`\nsession: `s1`\ncwd: `/w`"),
        _ => panic!("expected the status"),
    }
    assert!(matches!(run_command(&mut app, Command::NewSession), KeyAction::NewSession));
}

#[test]
fn leader_then_letter_runs_command() {
    let mut app = test_app();
    ctrl(&mut app, 'x');
    assert!(app.leader_active);
    press(&mut app, KeyCode::Char('q'));
    assert!(!app.leader_active);
    assert!(app.quit);
}

#[test]
fn key_release_is_ignored_after_typing() {
    let mut app = test_app();
    press(&mut app, KeyCode::Char('a'));
    let release = KeyEvent {
        code: KeyCode::Char('a'),
        modifiers: KeyModifiers::empty(),
        kind: lightcode::tui::keys::KeyEventKind::Release,
    };
    assert!(matches!(handle_key(&mut app, release, false, None), KeyAction::Nothing));
    assert_eq!(app.input.text(), "a");
}

#[test]
fn esc_clears_the_idle_composer() {
    let mut app = test_app();
    type_text(&mut app, "/he");
    assert!(!app.suggestions.is_empty());
    app.mouse_sel = Some(((0, 0), (1, 2)));
    assert!(matches!(press(&mut app, KeyCode::Esc), KeyAction::Nothing));
    assert_eq!(app.input.text(), "");
    assert!(app.suggestions.is_empty());
    assert!(app.mouse_sel.is_none());
}

#[test]
fn esc_while_busy_keeps_the_composer() {
    let mut app = test_app();
    type_text(&mut app, "hi");
    app.busy = true;
    app.auto_scroll = false;
    assert!(matches!(press(&mut app, KeyCode::Esc), KeyAction::Cancel));
    assert_eq!(app.input.text(), "hi");
    assert!(app.auto_scroll);
}

#[test]
fn up_and_down_walk_the_history() {
    let mut app = test_app();
    type_text(&mut app, "first");
    assert!(matches!(press(&mut app, KeyCode::Enter), KeyAction::Submit(_)));
    app.busy = false;
    type_text(&mut app, "draft");
    press(&mut app, KeyCode::Up);
    assert_eq!(app.input.text(), "first");
    press(&mut app, KeyCode::Down);
    assert_eq!(app.input.text(), "draft");
}

#[test]
fn typing_is_ignored_while_busy() {
    let mut app = test_app();
    app.busy = true;
    press(&mut app, KeyCode::Char('x'));
    assert_eq!(app.input.text(), "");
}

#[test]
fn ctrl_g_jumps_to_the_top() {
    let mut app = test_app();
    app.scroll = 7;
    app.auto_scroll = true;
    assert!(matches!(ctrl(&mut app, 'g'), KeyAction::Nothing));
    assert_eq!(app.scroll, 0);
    assert!(!app.auto_scroll);
}

#[test]
fn palette_enter_runs_the_selected_command() {
    let mut app = test_app();
    type_text(&mut app, "draft");
    ctrl(&mut app, 'k');
    assert!(app.command_palette.is_some());
    assert_eq!(app.input.text(), "");
    press(&mut app, KeyCode::Down);
    assert!(matches!(press(&mut app, KeyCode::Enter), KeyAction::OpenSessions));
    assert!(app.command_palette.is_none());
}

#[test]
fn leader_then_other_key_only_releases_the_leader() {
    let mut app = test_app();
    ctrl(&mut app, 'x');
    assert!(matches!(press(&mut app, KeyCode::Char('z')), KeyAction::Nothing));
    assert!(!app.leader_active);
    assert!(!app.quit);
    assert_eq!(app.input.text(), "");
}

#[test]
fn shift_tab_switches_to_the_next_mode() {
    let mut app = test_app();
    let before = app.mode;
    match press(&mut app, KeyCode::BackTab) {
        KeyAction::Send(UiCommand::SetMode(m)) => {
            assert_ne!(m, before);
            assert_eq!(app.mode, m);
        }
        _ => panic!("expected a mode change"),
    }
    assert!(app.toast.as_ref().unwrap().0.starts_with("Mode → "));
}

#[test]
fn copy_keys_take_the_mouse_selection_or_say_there_is_nothing() {
    let mut app = test_app();
    assert!(matches!(ctrl(&mut app, 'o'), KeyAction::Nothing));
    assert_eq!(app.toast.as_ref().unwrap().0, "Nothing to copy yet.");
    let m = KeyModifiers { control: true, ..KeyModifiers::empty() };
    match handle_key(&mut app, KeyEvent::new(KeyCode::Char('o'), m), false, Some("abc".into())) {
        KeyAction::Clipboard(t) => assert_eq!(t, "abc"),
        _ => panic!("expected a copy"),
    }
    assert_eq!(app.toast.as_ref().unwrap().0, "Copied selection (3 chars) to clipboard.");
}

#[test]
fn alt_p_expands_the_paste_placeholder() {
    let mut app = test_app();
    let big = (0..30).map(|i| format!("line {i}")).collect::<Vec<_>>().join("\n");
    app.handle_paste(&big);
    assert_ne!(app.input.text(), big);
    let m = KeyModifiers { alt: true, ..KeyModifiers::empty() };
    assert!(matches!(handle_key(&mut app, KeyEvent::new(KeyCode::Char('p'), m), false, None), KeyAction::Nothing));
    assert_eq!(app.input.text(), big);
}
