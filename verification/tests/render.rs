use lightcode::tui::app::{ToolBlock, ToolKind, ToolState};
use lightcode::tui::editor::{Cursor, TextEditor};
use lightcode::tui::render::{
    composer_height, hunk_start, md_wrap, parse_unified_diff, short_path, tool_summary, truncate_width,
    wrap_prose, wrap_text, wrapped_rows,
};

#[test]
fn parses_unified_diff_with_line_numbers() {
    let body = "diff --git a/x.rs b/x.rs\nindex abc..def 100644\n--- a/x.rs\n+++ b/x.rs\n@@ -1,2 +1,2 @@\n fn a() {}\n-println!(\"old\");\n+println!(\"new\");\n fn b() {}\n";
    let rows = parse_unified_diff(body);
    assert_eq!(rows.len(), 9);
    assert_eq!(rows[4].kind, '@');
    assert_eq!(rows[5].kind, ' ');
    assert_eq!(rows[5].old, Some(1));
    assert_eq!(rows[5].new, Some(1));
    assert_eq!(rows[6].kind, '-');
    assert_eq!(rows[6].old, Some(2));
    assert_eq!(rows[6].new, None);
    assert_eq!(rows[7].kind, '+');
    assert_eq!(rows[7].old, None);
    assert_eq!(rows[7].new, Some(2));
    assert_eq!(rows[8].new, Some(3));
}

#[test]
fn diff_rows_keep_text_and_headers() {
    let rows = parse_unified_diff("--- a/x\n+++ b/x\n@@ -10 +20 @@ fn\n-a\n+b\n c\nstray");
    assert_eq!(rows.len(), 7);
    assert_eq!(rows[0].kind, 'h');
    assert_eq!(rows[1].kind, 'h');
    assert_eq!(rows[2].text, "@@ -10 +20 @@ fn");
    assert_eq!(rows[3].old, Some(10));
    assert_eq!(rows[3].text, "a");
    assert_eq!(rows[4].new, Some(20));
    assert_eq!(rows[5].old, Some(11));
    assert_eq!(rows[5].new, Some(21));
    assert_eq!(rows[6].kind, 'h');
    assert_eq!(rows[6].old, None);
}

#[test]
fn hunk_start_reads_digits_after_sign() {
    assert_eq!(hunk_start(" -12,3 +40,2 @@", '-'), Some(12));
    assert_eq!(hunk_start(" -12,3 +40,2 @@", '+'), Some(40));
    assert_eq!(hunk_start(" -x +1 @@", '-'), None);
    assert_eq!(hunk_start(" +1 @@", '-'), None);
    assert_eq!(hunk_start(" -99999999999 @@", '-'), None);
}

#[test]
fn wraps_prose_at_width() {
    let line = "aaa bbb ccc ddd";
    let out = wrap_prose(line, 8);
    assert_eq!(out.len(), 2);
    assert!(out[0].chars().count() <= 8);
}

#[test]
fn prose_rows_exact() {
    assert_eq!(wrap_prose("aaa bbb ccc ddd", 8), vec!["aaa bbb", "ccc ddd"]);
    assert_eq!(wrap_prose("", 8), vec![""]);
    assert_eq!(md_wrap("```\naaa bbb ccc\n```\naaa bbb ccc", 4), "```\naaa bbb ccc\n```\naaa\nbbb\nccc");
}

#[test]
fn wrap_text_breaks_words_and_long_tokens() {
    assert_eq!(wrap_text("aaa bbb ccc ddd", 8), vec!["aaa bbb ", "ccc ddd"]);
    let long = "a".repeat(30);
    let rows = wrap_text(&long, 10);
    assert_eq!(rows.len(), 3);
    assert_eq!(rows.concat(), long);
    assert_eq!(wrap_text("", 5), vec![""]);
    assert_eq!(wrapped_rows("abc", 0), 3);
}

fn tb(kind: ToolKind, output: &str) -> ToolBlock {
    ToolBlock {
        kind,
        target: String::new(),
        state: ToolState::Success,
        output: output.to_string(),
    }
}

#[test]
fn tool_summaries() {
    assert_eq!(
        tool_summary(&tb(ToolKind::Grep, "a.rs:1:foo\nb.rs:2:foo\n")),
        Some("2 matches".to_string())
    );
    assert_eq!(
        tool_summary(&tb(
            ToolKind::Shell,
            "$ cargo test\n...\ntest result: ok. 42 passed\n"
        )),
        Some("42 passed".to_string())
    );
    assert_eq!(
        tool_summary(&tb(ToolKind::Shell, "$ true\nexit code: 0\n")),
        None // successful exit codes are implementation details
    );
    assert_eq!(
        tool_summary(&tb(ToolKind::Shell, "$ false\nexit code: 1\n")),
        Some("exit 1".to_string())
    );
    assert_eq!(
        tool_summary(&tb(
            ToolKind::Read,
            "=== a.rs ===\n    1 | fn x\n    2 | fn y\n"
        )),
        Some("2 lines".to_string())
    );
    assert!(tool_summary(&tb(ToolKind::Other, "ok")).is_none());
}

#[test]
fn tool_summaries_other_kinds() {
    assert_eq!(tool_summary(&tb(ToolKind::Git, "  \n ")), None);
    assert_eq!(tool_summary(&tb(ToolKind::Git, "one\ntwo\n")), Some("2 lines".to_string()));
    assert_eq!(tool_summary(&tb(ToolKind::Git, "clean")), Some("clean".to_string()));
    assert_eq!(tool_summary(&tb(ToolKind::List, "src/\nCargo.toml")), Some("src/".to_string()));
    assert_eq!(tool_summary(&tb(ToolKind::Edit, "edited a.rs\nmore")), Some("edited a.rs".to_string()));
    assert_eq!(tool_summary(&tb(ToolKind::Fetch, "a\nb\nc")), Some("3 lines".to_string()));
    assert_eq!(tool_summary(&tb(ToolKind::Shell, "hello\nworld")), Some("hello".to_string()));
    assert_eq!(
        tool_summary(&tb(ToolKind::Shell, "test result: ok. no numbers")),
        Some("tests passed".to_string())
    );
}

#[test]
fn composer_height_accounts_for_prefix() {
    // A line that fits exactly WITHOUT the "› " prefix but overflows WITH it
    // must still wrap, or the cursor row would desync from the height.
    let mut ed = TextEditor::new();
    let long = "x".repeat(19); // 19 cols + "› " = 21 → wraps at width 20
    ed.load_text(&long);
    let h = composer_height(&ed, 20);
    assert!(
        h >= 2,
        "prefix must push the line to a second row, got height {h}"
    );
}

#[test]
fn composer_height_is_clamped() {
    let mut ed = TextEditor::new();
    assert_eq!(composer_height(&ed, 20), 1);
    ed.load_text("a\nb\nc\nd\ne\nf\ng\nh\ni\nj");
    assert_eq!(composer_height(&ed, 20), 8);
    ed.load_text("a\nb");
    assert_eq!(composer_height(&ed, 20), 2);
}

#[test]
fn editor_set_cursor_clamps_and_clears_selection() {
    let mut ed = TextEditor::new();
    ed.load_text("ab\ncd");
    ed.set_cursor(Cursor { row: 0, col: 99 });
    assert_eq!(ed.cursor(), Cursor { row: 0, col: 2 });
    ed.set_cursor(Cursor { row: 99, col: 99 });
    assert_eq!(ed.cursor(), Cursor { row: 1, col: 2 });
}

#[test]
fn truncate_width_respects_columns() {
    assert_eq!(truncate_width("abcdef", 10), "abcdef");
    let t = truncate_width("abcdefghijklmnop", 8);
    assert!(t.ends_with('…'));
    assert!(unicode_width::UnicodeWidthStr::width(t.as_str()) <= 8);
    assert_eq!(t, "abcdefg…");
    assert_eq!(truncate_width("a🙂🙂b", 4), "a🙂…");
}

#[test]
fn short_path_replaces_home() {
    let home = "/home/someone";
    let p = format!("{}/Code/lightcode", home);
    assert!(short_path(&p, Some(home), 100).starts_with("~/Code/lightcode"));
    assert_eq!(short_path("/home/someone", Some(home), 100), "/home/someone");
    assert_eq!(short_path("abcdefghij", None, 5), "ab…ij");
}
