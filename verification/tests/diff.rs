use lightcode::diff::{all_added, all_deleted, diffs_after, lcs_ops, unified_diff, OpKind};

#[test]
fn modified_file_produces_minus_plus() {
    let old = "line1\nold line\nline3\n";
    let new = "line1\nnew line\nline3\n";
    let d = unified_diff(old, new);
    assert!(d.contains("-old line"));
    assert!(d.contains("+new line"));
    assert!(d.contains(" line1"));
    assert!(d.contains("@@"));
}

#[test]
fn unchanged_text_has_no_hunks() {
    assert!(unified_diff("a\nb\n", "a\nb\n").is_empty());
}

#[test]
fn new_file_is_all_additions() {
    let d = all_added("a\nb\n");
    assert!(d.contains("+a"));
    assert!(d.contains("+b"));
    assert!(d.contains("@@ -0,0 +1,3 @@"));
}

#[test]
fn deleted_file_is_all_removals() {
    let d = all_deleted("a\nb\n");
    assert!(d.contains("-a"));
    assert!(d.contains("-b"));
}

#[test]
fn unified_diff_exact_hunk() {
    let d = unified_diff("line1\nold line\nline3\n", "line1\nnew line\nline3\n");
    assert_eq!(d, "@@ -1,4 +1,4 @@\n line1\n+new line\n-old line\n line3\n \n\n");
}

#[test]
fn unified_diff_distant_changes_make_two_hunks() {
    let old: Vec<String> = (0..20).map(|i| format!("l{i}")).collect();
    let mut new = old.clone();
    new[1] = "X".to_string();
    new[18] = "Y".to_string();
    let d = unified_diff(&old.join("\n"), &new.join("\n"));
    assert_eq!(d.matches("@@ -").count(), 2);
    assert!(d.starts_with("@@ -1,5 +1,5 @@\n l0\n+X\n-l1\n l2\n l3\n l4\n\n"));
    assert!(d.contains("@@ -16,5 +16,5 @@\n l15\n l16\n l17\n+Y\n-l18\n l19\n\n"));
}

#[test]
fn unified_diff_close_changes_merge() {
    let old = "a\nb\nc\nd\ne\nf\ng";
    let new = "a\nB\nc\nd\ne\nF\ng";
    let d = unified_diff(old, new);
    assert_eq!(d.matches("@@ -").count(), 1);
    assert_eq!(d, "@@ -1,7 +1,7 @@\n a\n+B\n-b\n c\n d\n e\n+F\n-f\n g\n\n");
}

#[test]
fn unified_diff_pure_insertion() {
    let d = unified_diff("a\nb", "a\nx\nb");
    assert_eq!(d, "@@ -1,2 +1,3 @@\n a\n+x\n b\n\n");
}

#[test]
fn unified_diff_large_distinct_texts() {
    let old: Vec<String> = (0..2100).map(|i| format!("o{i}")).collect();
    let new: Vec<String> = (0..2100).map(|i| format!("n{i}")).collect();
    let d = unified_diff(&old.join("\n"), &new.join("\n"));
    assert!(d.starts_with("@@ -1,2100 +1,2100 @@\n-o0\n-o1\n"));
    assert!(d.contains("-o2099\n+n0\n"));
}

#[test]
fn all_added_exact() {
    assert_eq!(all_added("x\ny"), "@@ -0,0 +1,2 @@\n+x\n+y\n");
    assert_eq!(all_deleted("x"), "@@ -1,1 +0,0 @@\n-x\n");
}

#[test]
fn lcs_ops_sides_reconstruct_inputs() {
    let a: Vec<Vec<char>> = ["a", "b", "c", "d"].iter().map(|s| s.chars().collect()).collect();
    let b: Vec<Vec<char>> = ["a", "c", "x", "d"].iter().map(|s| s.chars().collect()).collect();
    let ops = lcs_ops(&a, &b);
    let old: Vec<Vec<char>> =
        ops.iter().filter(|o| o.kind != OpKind::Ins).map(|o| o.line.clone()).collect();
    let new: Vec<Vec<char>> =
        ops.iter().filter(|o| o.kind != OpKind::Del).map(|o| o.line.clone()).collect();
    assert_eq!(old, a);
    assert_eq!(new, b);
    assert_eq!(ops.iter().filter(|o| o.kind == OpKind::Eq).count(), 3);
}

#[test]
fn diffs_after_skips_unchanged_files() {
    let before = vec![
        ("a.txt".to_string(), Some("one\ntwo\n".to_string())),
        ("b.txt".to_string(), Some("same\n".to_string())),
        ("c.txt".to_string(), None),
        ("d.txt".to_string(), Some("gone".to_string())),
        ("e.txt".to_string(), None),
    ];
    let now = vec![
        Some("one\nCHANGED\n".to_string()),
        Some("same\n".to_string()),
        Some("new".to_string()),
        None,
        None,
    ];
    let diffs = diffs_after(&before, &now);
    assert_eq!(diffs.len(), 3);
    assert_eq!(diffs[0].0, "a.txt");
    assert!(diffs[0].1.contains("-two"));
    assert!(diffs[0].1.contains("+CHANGED"));
    assert_eq!(diffs[1], ("c.txt".to_string(), "@@ -0,0 +1,1 @@\n+new\n".to_string()));
    assert_eq!(diffs[2], ("d.txt".to_string(), "@@ -1,1 +0,0 @@\n-gone\n".to_string()));
}
