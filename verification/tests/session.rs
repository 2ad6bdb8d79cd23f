use lightcode::session::{
    fork_title, log_file_name, meta_file_id, meta_file_name, platform_data_dir, renamed_title,
    session_id, sort_newest_first, title_for_prompt, workspace_dir, SessionMeta,
};

fn meta(id: &str, created: &str) -> SessionMeta {
    SessionMeta {
        id: id.into(),
        created_at: created.into(),
        title: String::new(),
        approved: vec![],
        mode: None,
        workspace: None,
        cwd: None,
    }
}

#[test]
fn session_files_and_ids() {
    assert_eq!(meta_file_name("abc"), "abc.meta.json");
    assert_eq!(log_file_name("abc"), "abc.jsonl");
    assert_eq!(meta_file_id("abc.meta.json").as_deref(), Some("abc"));
    assert!(meta_file_id("abc.jsonl").is_none());
    assert_eq!(session_id(1700000000123, 42, 7), "1700000000123-42-7");
}

#[test]
fn session_titles() {
    assert_eq!(title_for_prompt("", "  fix the parser  ").as_deref(), Some("fix the parser"));
    assert!(title_for_prompt("kept", "new").is_none());
    assert!(title_for_prompt("", "   ").is_none());
    let long = "y".repeat(80);
    assert_eq!(title_for_prompt("", &long).unwrap().chars().count(), 50);
    assert_eq!(renamed_title("  New name "), "New name");
    assert_eq!(renamed_title(&"z".repeat(300)).chars().count(), 200);
    assert_eq!(fork_title(" Plan "), "Plan (fork)");
}

#[test]
fn session_dirs() {
    assert_eq!(platform_data_dir("/home/u", false), "/home/u/.local/share/lightcode/sessions");
    assert_eq!(
        platform_data_dir("/Users/u", true),
        "/Users/u/Library/Application Support/lightcode/sessions"
    );
    assert_eq!(workspace_dir("/d", ""), "/d/workspaces/cbf29ce484222325");
}

#[test]
fn sessions_sort_newest_first() {
    let v = vec![meta("a", "100"), meta("b", "300"), meta("c", "200"), meta("d", "300")];
    let ids: Vec<String> = sort_newest_first(v).into_iter().map(|m| m.id).collect();
    assert_eq!(ids, vec!["b", "d", "c", "a"]);
}

#[test]
fn always_approvals_are_added_once() {
    let v: Vec<String> = vec!["write".into()];
    let once = lightcode::session::with_approval(&v, "shell");
    assert_eq!(once, vec!["write".to_string(), "shell".to_string()]);
    let twice = lightcode::session::with_approval(&once, "shell");
    assert_eq!(twice, once);
    assert_eq!(lightcode::session::with_approval(&vec![], "edit"), vec!["edit".to_string()]);
}
