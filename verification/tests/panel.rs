use lightcode::goal::{GoalEvaluation, GoalStatus, VerificationResult};
use lightcode::tui::app::{ActivityBlock, ActivityItem, ActivityPhase, ActivityStatus, ToolBlock, ToolKind, ToolState};
use lightcode::tui::panel::{
    activity_block_lines, diff_block_lines, error_block_lines, goal_panel, tool_block_lines, user_block_lines, GoalPanel,
    StyledLine, Tone,
};
use lightcode::tui::render::parse_unified_diff;

fn texts(l: &StyledLine) -> Vec<(String, Tone, bool)> {
    l.runs.iter().map(|s| (s.text.clone(), s.tone, s.bold)).collect()
}

fn running_goal() -> GoalPanel {
    GoalPanel {
        description: "Make the tests pass".into(),
        turn: 2,
        max_turns: 10,
        finished: false,
        status: GoalStatus::Running,
        verification: vec![],
        evaluation: None,
        message: String::new(),
        turns: 0,
        seconds: 0,
    }
}

#[test]
fn running_goal_panel_shows_turn_and_pauses() {
    let v = goal_panel(&running_goal(), true, 80, 40);
    assert_eq!(v.title, " Goal · autonomously running ");
    assert_eq!(v.border, Tone::Accent);
    assert_eq!(v.width, 76);
    assert_eq!(v.lines.len(), 2);
    assert_eq!(v.height, 4);
    assert_eq!(texts(&v.lines[0]), vec![("Make the tests pass".to_string(), Tone::Text, true)]);
    assert_eq!(texts(&v.lines[1]), vec![("Turn 2 / 10".to_string(), Tone::Accent, false)]);
    let idle = goal_panel(&running_goal(), false, 10, 5);
    assert_eq!(idle.width, 20);
    assert_eq!(texts(&idle.lines[1])[0].0, "Turn 2 / 10  (paused)");
}

#[test]
fn finished_goal_panel_shows_checks_verdict_and_outcome() {
    let mut g = running_goal();
    g.finished = true;
    g.status = GoalStatus::Completed;
    g.verification = vec![VerificationResult {
        command: "cargo test".into(),
        exit_code: -1,
        success: false,
        output: String::new(),
    }];
    g.evaluation = Some(GoalEvaluation {
        completed: true,
        reason: "all green\nno warnings".into(),
        remaining_work: vec!["a".into(), "b".into(), "c".into(), "d".into(), "e".into(), "f".into(), "g".into()],
        evidence: vec![],
    });
    g.message = "done".into();
    g.turns = 3;
    g.seconds = 75;
    let v = goal_panel(&g, false, 80, 12);
    assert_eq!(v.title, " Goal ");
    assert_eq!(v.border, Tone::Success);
    // header 2, verification 3, evaluator 3 + 2 reason + 6 items, finished 2 + 1 + 2
    assert_eq!(v.lines.len(), 21);
    assert_eq!(v.height, 10);
    assert!(v.lines[2].runs.is_empty());
    assert_eq!(
        texts(&v.lines[4]),
        vec![
            ("  ✗ ".to_string(), Tone::Error, false),
            ("cargo test".to_string(), Tone::Text, false),
            (" (exit -1)".to_string(), Tone::Dim, false),
        ]
    );
    assert_eq!(texts(&v.lines[7]), vec![("  ✓ ".to_string(), Tone::Success, false), ("complete".to_string(), Tone::Success, true)]);
    assert_eq!(texts(&v.lines[8]), vec![("  all green".to_string(), Tone::Dim, false)]);
    assert_eq!(texts(&v.lines[15])[1].0, "f");
    assert_eq!(texts(&v.lines[17]), vec![("✓ Goal completed".to_string(), Tone::Success, true)]);
    assert_eq!(texts(&v.lines[18]), vec![("  done".to_string(), Tone::Text, false)]);
    assert_eq!(texts(&v.lines[19]), vec![("  3 turns · 1m 15s".to_string(), Tone::Dim, false)]);
    assert_eq!(texts(&v.lines[20]), vec![("  Esc to dismiss".to_string(), Tone::Dim, false)]);
}

fn tool(kind: ToolKind, target: &str, state: ToolState, output: &str) -> ToolBlock {
    ToolBlock { kind, target: target.into(), state, output: output.into() }
}

#[test]
fn tool_block_header_and_expanded_output() {
    let tb = tool(ToolKind::Shell, "ls -la", ToolState::Success, "a.txt\nb.txt");
    let lines = tool_block_lines(&tb, true, true);
    assert_eq!(lines.len(), 3);
    assert_eq!(
        texts(&lines[0]),
        vec![
            ("▶ ".to_string(), Tone::Accent, false),
            ("✓".to_string(), Tone::Success, true),
            (" ".to_string(), Tone::Plain, false),
            ("shell ".to_string(), Tone::Success, false),
            ("$ ls -la".to_string(), Tone::Text, true),
        ]
    );
    assert_eq!(texts(&lines[1]), vec![("  a.txt".to_string(), Tone::Text, false)]);
    let edit = tool(ToolKind::Edit, "src/a.rs", ToolState::Running, "@@ -1 +1 @@\n-old\n+new\n same");
    let lines = tool_block_lines(&edit, false, true);
    assert_eq!(lines.len(), 5);
    assert_eq!(texts(&lines[0])[0].0, "  ");
    assert_eq!(texts(&lines[0])[1], ("◌".to_string(), Tone::Running, true));
    assert_eq!(texts(&lines[0])[4], ("src/a.rs".to_string(), Tone::Running, true));
    assert_eq!(texts(&lines[1])[0].1, Tone::Accent);
    assert_eq!(texts(&lines[2])[0].1, Tone::Error);
    assert_eq!(texts(&lines[3])[0].1, Tone::Success);
    assert_eq!(texts(&lines[4])[0].1, Tone::Dim);
}

#[test]
fn collapsed_tool_blocks_hint_at_more_output() {
    let quiet = tool(ToolKind::Other, "thing", ToolState::Failed, "   ");
    let lines = tool_block_lines(&quiet, false, false);
    assert_eq!(lines.len(), 1);
    assert_eq!(texts(&lines[0])[3], ("tool  ".to_string(), Tone::Error, false));
    let many = tool(ToolKind::Other, "thing", ToolState::Success, "one\ntwo");
    let lines = tool_block_lines(&many, false, false);
    let last = texts(lines.last().unwrap());
    assert_eq!(last, vec![("      [Show output — Enter]".to_string(), Tone::Dim, false)]);
}

#[test]
fn error_blocks_mark_their_first_line() {
    let lines = error_block_lines("boom\ncaused by: x");
    assert_eq!(lines.len(), 2);
    assert_eq!(texts(&lines[0]), vec![("⚠ boom".to_string(), Tone::Error, false)]);
    assert_eq!(texts(&lines[1]), vec![("caused by: x".to_string(), Tone::Error, false)]);
    let empty = error_block_lines("");
    assert_eq!(empty.len(), 1);
    assert_eq!(texts(&empty[0])[0].0, "⚠ ");
}

#[test]
fn activity_groups_list_items_and_hide_output_when_collapsed() {
    let a = ActivityBlock {
        phase: ActivityPhase::Investigating,
        items: vec![
            ActivityItem {
                name: "read_file".into(),
                kind: ToolKind::Read,
                target: "src/main.rs".into(),
                status: ActivityStatus::Success,
                output: "fn main() {}".into(),
            },
            ActivityItem {
                name: "grep".into(),
                kind: ToolKind::Grep,
                target: "TODO".into(),
                status: ActivityStatus::Running,
                output: String::new(),
            },
        ],
        done: false,
    };
    let collapsed = activity_block_lines(&a, true, false);
    assert_eq!(collapsed.len(), 4);
    assert_eq!(texts(&collapsed[0]), vec![("▶  ◌ Investigating...".to_string(), Tone::Running, false)]);
    assert_eq!(texts(&collapsed[1])[1], ("✓".to_string(), Tone::Success, false));
    assert_eq!(texts(&collapsed[2])[1], ("◌".to_string(), Tone::Running, false));
    assert_eq!(texts(&collapsed[3])[0].0, "      [Show output — Enter]");
    let expanded = activity_block_lines(&a, false, true);
    assert_eq!(expanded.len(), 4);
    assert_eq!(texts(&expanded[2]), vec![("      fn main() {}".to_string(), Tone::Dim, false)]);
}

#[test]
fn prompts_are_drawn_in_a_border() {
    let lines = user_block_lines("hello", 1, 20);
    assert_eq!(lines.len(), 4);
    assert!(lines[0].runs.is_empty());
    assert_eq!(texts(&lines[1]), vec![("┌ You ─────────────┐".to_string(), Tone::Dim, false)]);
    assert_eq!(
        texts(&lines[2]),
        vec![
            ("│ ".to_string(), Tone::Dim, false),
            ("hello".to_string(), Tone::Text, false),
            ("            │".to_string(), Tone::Dim, false),
        ]
    );
    assert_eq!(texts(&lines[3]), vec![("└──────────────────┘".to_string(), Tone::Dim, false)]);
    assert_eq!(user_block_lines("hi", 0, 20).len(), 3);
}

#[test]
fn diff_blocks_number_their_rows() {
    let body = "@@ -1,2 +1,2 @@\n a\n-b\n+c\n";
    let rows = parse_unified_diff(body).len();
    let lines = diff_block_lines("src/x.rs", body, false, 40, true);
    assert_eq!(lines.len(), rows + 2);
    assert_eq!(texts(&lines[0])[0].1, Tone::Accent);
    assert!(texts(&lines[0])[0].0.starts_with("┌ src/x.rs ─"));
    let ctx = texts(&lines[2]);
    assert_eq!(ctx[1], ("      1     1 │ ".to_string(), Tone::Dim, false));
    assert_eq!(ctx[2], ("  a".to_string(), Tone::Dim, false));
    assert_eq!(texts(&lines[3])[2].1, Tone::Error);
    assert_eq!(texts(&lines[4])[2], ("+ c".to_string(), Tone::Success, false));
    let long: String = (0..20).map(|i| format!("+l{i}\n")).collect();
    let body = format!("@@ -0,0 +1,20 @@\n{long}");
    let folded = diff_block_lines("f", &body, false, 40, false);
    assert_eq!(folded.len(), 12 + 3);
    assert_eq!(texts(&folded[13])[1].0, "… +9 baris · [Show — Enter]");
    assert_eq!(diff_block_lines("f", &body, true, 40, false).len(), 21 + 2);
}
