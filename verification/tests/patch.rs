use lightcode::tools::patch::{
    added_content, apply_update, expect_line, is_framed, move_target, parse_range, parse_start,
    patch_report, split_sections,
};

fn chars(s: &str) -> Vec<char> {
    s.chars().collect()
}

#[test]
fn sections_split_by_headers() {
    let patch = "*** Begin Patch\n*** Update File: a.rs\n@@ -1 +1 @@\n-x\n+y\n*** Add File: new.rs\n+hello\n*** Delete File: old.rs\n*** End Patch";
    let s = split_sections(patch);
    assert_eq!(s.len(), 3);
    assert_eq!((s[0].action.as_str(), s[0].target.as_str()), ("Update", "a.rs"));
    assert_eq!(s[0].body, "@@ -1 +1 @@\n-x\n+y\n");
    assert_eq!((s[1].action.as_str(), s[1].target.as_str(), s[1].body.as_str()), ("Add", "new.rs", "+hello\n"));
    assert_eq!((s[2].action.as_str(), s[2].target.as_str(), s[2].body.as_str()), ("Delete", "old.rs", ""));
}

#[test]
fn header_without_target_is_skipped() {
    let s = split_sections("*** Begin Patch\n*** Update File:   \nbody\n*** End Patch\n");
    assert!(s.is_empty());
    let s = split_sections("*** Move File: a.rs → b.rs\n");
    assert_eq!(s.len(), 1);
    assert_eq!(s[0].target, "a.rs → b.rs");
}

#[test]
fn ranges_parse_like_unified_diff_headers() {
    assert_eq!(parse_range(&chars(" -3,4 +5,6 ")), Some((3, 5, 4)));
    assert_eq!(parse_range(&chars("-7 +9")), Some((7, 9, 1)));
    assert_eq!(parse_range(&chars("-1,2")), None);
    assert_eq!(parse_range(&chars("+1 -2")), None);
    assert_eq!(parse_range(&chars("-x +1")), None);
    assert_eq!(parse_start(&chars("+12,3")), Some((12, 3)));
    assert_eq!(parse_start(&chars("4,")), None);
}

#[test]
fn update_applies_hunks() {
    let original = "a\nb\nc\nd\n";
    let body = "@@ -2,2 +2,2 @@\n b\n-c\n+C\n";
    let (content, n) = apply_update("f.txt", original, body).unwrap();
    assert_eq!(n, 1);
    assert_eq!(content, "a\nb\nC\nd\n");
}

#[test]
fn update_reports_mismatch() {
    let err = apply_update("f.txt", "a\nb\n", "@@ -1,1 +1,1 @@\n-z\n+y\n").unwrap_err();
    assert_eq!(err, "update f.txt: patch does not fit — expected `z` at line 1, found `a`");
    let err = apply_update("f.txt", "a", "@@ -5,1 +5,1 @@\n-z\n").unwrap_err();
    assert_eq!(err, "update f.txt: hunk starts at line 5 but file has 0 lines");
    let err = apply_update("f.txt", "a\n", "no hunks here").unwrap_err();
    assert_eq!(err, "update f.txt: no valid hunks found");
}

#[test]
fn expect_line_past_end() {
    let lines = vec![chars("a")];
    assert!(expect_line("p", 0, &lines, &chars("a")).is_ok());
    assert_eq!(expect_line("p", 1, &lines, &chars("a")).unwrap_err(), "update p: patch does not fit (line 2)");
}

#[test]
fn add_and_move_helpers() {
    assert_eq!(added_content("+one\ntwo\n+three"), "one\ntwo\nthree\n");
    assert_eq!(move_target(" a.rs → dir/b.rs "), Some(("a.rs".to_string(), "dir/b.rs".to_string())));
    assert_eq!(move_target("a.rs"), None);
    assert_eq!(move_target(" → b"), None);
    assert!(is_framed("*** Begin Patch\n*** End Patch"));
    assert!(!is_framed("*** Begin Patch\n"));
}

#[test]
fn report_lists_changes_and_failures() {
    let ok = patch_report(&vec!["added a (3 bytes)".to_string()], &vec![]).unwrap();
    assert_eq!(ok, "Applied 1 change(s):\n  - added a (3 bytes)\n");
    let err = patch_report(&vec!["deleted b".to_string()], &vec!["delete c: file does not exist".to_string()]).unwrap_err();
    assert_eq!(err, "Applied 1 change(s):\n  - deleted b\nFailed on 1 change(s):\n  - delete c: file does not exist\n");
    assert_eq!(patch_report(&vec![], &vec![]).unwrap_err(), "apply_patch: patch contains no file changes");
}
