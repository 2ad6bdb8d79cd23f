use lightcode::history::{push, suggestions};
use lightcode::tui::app::{expand_pastes, human_count, ActivityPhase, PasteEntry, ToolKind};
use lightcode::tui::select::{col_to_char, extract_text, line_width, sel_normalized, slice_by_cols, wrap_rows};
use lightcode::workspace::workspace_id;

#[test]
fn selection_reversed_regardless_of_direction() {
    let sel = ((2, 5), (0, 1));
    let (s, e) = sel_normalized(sel.0, sel.1);
    assert_eq!(s, (0, 1));
    assert_eq!(e, (2, 5));
    assert_eq!(sel_normalized((1, 2), (1, 9)), ((1, 2), (1, 9)));
}

#[test]
fn workspace_id_is_stable_and_distinct() {
    let a1 = workspace_id("/tmp/project-a");
    let a2 = workspace_id("/tmp/project-a");
    assert_eq!(a1, a2);
    assert_ne!(a1, workspace_id("/tmp/project-b"));
    // FNV-1a of the empty input is the offset basis; of "a" the known value.
    assert_eq!(workspace_id(""), "cbf29ce484222325");
    assert_eq!(workspace_id("a"), "af63dc4c8601ec8c");
}

#[test]
fn tool_kinds_and_labels() {
    assert!(ToolKind::from_name("git_log") == ToolKind::Git);
    assert_eq!(ToolKind::from_name("list_directory").label(), "ls");
    assert_eq!(ToolKind::from_name("mystery").label(), "tool");
    assert_eq!(ActivityPhase::Modifying.label(), "Modifying files");
    assert_eq!(ActivityPhase::Running.done_label(), "Ran");
}

#[test]
fn pastes_expand_and_counts() {
    let pastes = vec![PasteEntry { placeholder: "[Pasted text · 30 lines · 2k chars]".into(), content: "a\nb".into() }];
    assert_eq!(expand_pastes("before\n[Pasted text · 30 lines · 2k chars]\nafter", &pastes), "before\na\nb\nafter");
    assert_eq!(expand_pastes("x\r\ny\n", &pastes), "x\ny");
    assert_eq!(human_count(999), "999");
    assert_eq!(human_count(2500), "2k");
}

#[test]
fn history_suggestions_and_push() {
    let items = vec!["explain the router".to_string(), "".to_string(), "Refactor AUTH".to_string(), "auth again".to_string()];
    assert_eq!(suggestions(&items, "auth", 10), vec!["Refactor AUTH".to_string(), "auth again".to_string()]);
    assert_eq!(suggestions(&items, "auth", 1), vec!["Refactor AUTH".to_string()]);
    let pushed = push(&vec!["refactor auth".to_string(), "explain the router".to_string()], "explain the router");
    assert_eq!(pushed, vec!["explain the router".to_string(), "refactor auth".to_string()]);
    let many: Vec<String> = (0..250).map(|i| format!("p{i}")).collect();
    let pushed = push(&many, "new");
    assert_eq!(pushed.len(), 200);
    assert_eq!(pushed[0], "new");
    assert_eq!(pushed[199], "p198");
}

#[test]
fn col_mapping_and_slicing() {
    assert_eq!(col_to_char("hello", 3), 3);
    // "a🙂b": col 3 is just past 🙂 (2 wide) → byte index 5 ('b').
    assert_eq!(col_to_char("a🙂b", 3), 5);
    assert_eq!(slice_by_cols("hello world", 0, 5), "hello");
}

fn lines(texts: &[&str]) -> Vec<String> {
    texts.iter().map(|t| t.to_string()).collect()
}

#[test]
fn wrap_rows_handles_long_lines() {
    let l = lines(&["abcdefgh", "x"]);
    let rows = wrap_rows(&l, 4);
    assert_eq!(rows.len(), 3); // 8/4 = 2 + 1
    assert_eq!(rows[0], (0, 0, 4));
    assert_eq!(rows[1], (0, 4, 8));
    assert_eq!(rows[2], (1, 0, 1));
}

#[test]
fn extract_single_row_selection() {
    let l = lines(&["hello world"]);
    let sel = ((0, 0), (0, 5));
    assert_eq!(extract_text(&l, 80, 0, &sel), "hello");
}

#[test]
fn extract_multi_row_selection() {
    let l = lines(&["abcd", "efgh"]);
    let sel = ((0, 1), (1, 2));
    assert_eq!(extract_text(&l, 80, 0, &sel), "bcd\nef");
}

#[test]
fn selection_edges_and_empty_lines() {
    let l = lines(&["", "abcdef", "gh"]);
    assert_eq!(wrap_rows(&l, 0).len(), 1 + 6 + 2);
    assert_eq!(wrap_rows(&l, 4), vec![(0, 0, 0), (1, 0, 4), (1, 4, 6), (2, 0, 2)]);
    // Reversed drag over three rows, scrolled by one.
    assert_eq!(extract_text(&l, 4, 1, &((2, 1), (0, 2))), "cd\nef\ng");
    assert_eq!(slice_by_cols("a🙂b", 2, 3), "🙂");
    assert_eq!(line_width("a🙂b"), 4);
}
