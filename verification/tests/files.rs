use lightcode::files::{fuzzy_match, FileIndex, Match};

fn index() -> FileIndex {
    let files = [
        "src/main.rs",
        "src/auth/auth.service.ts",
        "src/auth/auth.service.spec.ts",
        "src/auth/auth.controller.ts",
        "src/auth/auth.guard.ts",
        "src/payment/pay.ts",
        "src/users/user.go",
        "tests/auth_test.rs",
        "package.json",
    ];
    let dirs = ["tests", "src/users", "src/payment", "src/auth", "src"];
    FileIndex::new(
        files.iter().map(|s| s.to_string()).collect(),
        dirs.iter().map(|s| s.to_string()).collect(),
    )
}

#[test]
fn fuzzy_subsequence() {
    assert!(fuzzy_match("authsvc", "src/auth/auth.service.ts"));
    assert!(fuzzy_match("main", "src/main.rs"));
    assert!(!fuzzy_match("zzz", "src/main.rs"));
}

#[test]
fn prefix_and_fuzzy_search() {
    let idx = index();
    let prefix = idx.query("auth.ser", 10);
    assert!(prefix.iter().any(|m| m.path == "src/auth/auth.service.ts"));
    let fuzzy = idx.query("authsvc", 10);
    assert!(fuzzy.iter().any(|m| m.path == "src/auth/auth.service.ts"));
}

#[test]
fn directory_navigation() {
    let idx = index();
    let kids = idx.query("src/auth/", 20);
    assert!(kids.iter().any(|m| m.path == "src/auth/auth.service.ts" && !m.is_dir));
    assert!(kids.iter().any(|m| m.path == "src/auth/auth.guard.ts"));
    let kids = idx.query("src/auth/gu", 20);
    assert!(kids.iter().any(|m| m.path == "src/auth/auth.guard.ts"));
}

#[test]
fn empty_query_lists_top_level() {
    let idx = index();
    let top = idx.query("", 50);
    assert_eq!(
        top,
        vec![
            Match { path: "package.json".into(), is_dir: false },
            Match { path: "src".into(), is_dir: true },
            Match { path: "tests".into(), is_dir: true },
        ]
    );
    assert_eq!(idx.query("///", 2).len(), 2);
}

#[test]
fn match_all_orders_by_score_then_path() {
    let idx = index();
    let r = idx.query("SRC/AUTH/AUTH.", 3);
    assert_eq!(
        r.iter().map(|m| m.path.as_str()).collect::<Vec<_>>(),
        vec!["src/auth/auth.controller.ts", "src/auth/auth.guard.ts", "src/auth/auth.service.spec.ts"]
    );
    let r = idx.query("pay", 10);
    assert_eq!(r[0], Match { path: "src/payment".into(), is_dir: true });
    assert_eq!(r[1], Match { path: "src/payment/pay.ts".into(), is_dir: false });
}

#[test]
fn navigation_lists_directories_and_files_sorted() {
    let idx = index();
    let r = idx.query("src/", 20);
    assert_eq!(r.len(), 10);
    assert_eq!(
        r.iter().take(3).map(|m| (m.path.as_str(), m.is_dir)).collect::<Vec<_>>(),
        vec![
            ("src/auth", true),
            ("src/auth/auth.controller.ts", false),
            ("src/auth/auth.guard.ts", false),
        ]
    );
    assert!(idx.query("nope/x", 10).is_empty());
}
