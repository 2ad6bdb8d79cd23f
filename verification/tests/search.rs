use lightcode::tools::exec::CmdResult;
use lightcode::tools::search::{format_rg_matches, glob_outcome, grep_outcome, list_output};

fn res(code: Option<i32>, stdout: &str, stderr: &str) -> CmdResult {
    CmdResult { stdout: stdout.into(), stderr: stderr.into(), code, timed_out: false }
}

#[test]
fn rg_matches_are_capped() {
    assert_eq!(format_rg_matches("a.rs:1:x\nb.rs:2:y"), "a.rs:1:x\nb.rs:2:y\n");
    let many: String = (0..250).map(|i| format!("f.rs:{i}:x\n")).collect();
    let out = format_rg_matches(&many);
    assert_eq!(out.lines().count(), 201);
    assert!(out.ends_with("[truncated at 200 matches]\n"));
}

#[test]
fn grep_and_glob_outcomes() {
    assert_eq!(grep_outcome("fn", "src", res(Some(0), "a:1:fn\n", "")).unwrap(), "a:1:fn\n");
    assert_eq!(grep_outcome("fn", "src", res(Some(1), "", "")).unwrap(), "grep: no matches for 'fn' in src");
    assert_eq!(
        grep_outcome("fn", "src", res(Some(2), "", " bad \n")).unwrap_err(),
        "grep: rg failed (exit 2): bad"
    );
    assert_eq!(grep_outcome("fn", "src", res(None, "", "")).unwrap_err(), "grep: rg failed");
    let mut t = res(Some(0), "", "");
    t.timed_out = true;
    assert_eq!(grep_outcome("fn", ".", t).unwrap_err(), "grep: rg timed out searching 'fn' in .");
    assert_eq!(glob_outcome("*.rs", ".", res(Some(0), "a.rs\nb.rs\n", "")).unwrap(), "a.rs\nb.rs");
    assert_eq!(glob_outcome("*.rs", ".", res(Some(0), "", "")).unwrap(), "glob: no files match '*.rs' in .");
    assert_eq!(glob_outcome("*.rs", ".", res(Some(1), "", "")).unwrap(), "glob: no files match '*.rs' in .");
}

#[test]
fn directory_listing_is_sorted() {
    let names = vec!["b.rs".to_string(), "a/".to_string(), "C".to_string()];
    assert_eq!(list_output("src", &names), "3 entries in src:\nC\na/\nb.rs");
}
