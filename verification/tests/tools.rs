use lightcode::tools::edit::EditFile;
use lightcode::tools::exec::{shell_report, CmdResult};
use lightcode::tools::git::{git_outcome, GitDiff, GitLog, GitStatus};
use lightcode::tools::read::ReadFile;
use lightcode::tools::{bound, Shell, WriteFile};

#[test]
fn output_is_bounded() {
    let out = bound("x".repeat(100_000));
    assert!(out.len() < 40_000);
    assert!(out.contains("truncated"));
}

#[test]
fn bound_exact_and_multibyte() {
    assert_eq!(bound("short".to_string()), "short");
    let out = bound("x".repeat(40_000));
    assert!(out.ends_with("\n\n[truncated: 32768 of 40000 bytes]"));
    // 'é' is 2 bytes: 16384 of them is exactly the limit; one more is cut at a boundary.
    let s = "é".repeat(16_385);
    let out = bound(s);
    assert!(out.ends_with("[truncated: 32768 of 32770 bytes]"));
    assert_eq!(out.chars().filter(|c| *c == 'é').count(), 16_384);
    let s = format!("a{}", "é".repeat(16_384));
    let out = bound(s);
    assert!(out.ends_with("[truncated: 32767 of 32769 bytes]"));
}

#[test]
fn edit_replaces_unique_occurrence() {
    let (content, msg) = EditFile::apply("a.txt", "foo bar foo\n", "bar", "baz", false).unwrap();
    assert_eq!(content, "foo baz foo\n");
    assert_eq!(msg, "edited a.txt: replaced 1 occurrence(s)\n- bar\n+ baz");
}

#[test]
fn edit_errors_on_ambiguous_or_missing() {
    let err = EditFile::apply("a.txt", "aaa\naaa\n", "aaa", "bbb", false).unwrap_err();
    assert!(err.contains("matches"));
    assert_eq!(err, "edit_file a.txt: found 2 matches; set replace_all=true or make old_string unique");
    let err = EditFile::apply("a.txt", "abc", "z", "y", true).unwrap_err();
    assert_eq!(err, "edit_file a.txt: old_string not found");
    let (content, msg) = EditFile::apply("a.txt", "aaaa", "aa", "b", true).unwrap();
    assert_eq!(content, "bb");
    assert!(msg.contains("replaced 2 occurrence(s)"));
    assert_eq!(EditFile::check_old("").unwrap_err(), "edit_file: old_string must not be empty");
    assert!(EditFile::check_old("x").is_ok());
}

#[test]
fn read_file_lists_lines() {
    let out = ReadFile::listing("a.txt", "one\ntwo\n", 0, None);
    assert!(out.contains("one"));
    assert!(out.contains("1 |"));
    assert_eq!(out, "=== a.txt (lines 1-2) ===\n    1 | one\n    2 | two");
    assert_eq!(ReadFile::listing("a.txt", "a\nb\nc", 1, Some(1)), "=== a.txt (lines 2-2) ===\n    2 | b");
    assert_eq!(
        ReadFile::listing("a.txt", "a\nb", 5, None),
        "read_file a.txt: no lines in range (file has 2 lines)"
    );
}

#[test]
fn read_file_rejects_binary() {
    let err = ReadFile::decode("b.bin", vec![0u8, 1, 2, 3]).unwrap_err();
    assert!(err.contains("binary"));
    assert_eq!(ReadFile::decode("c", vec![0xff, 0xfe]).unwrap_err(), "read_file c: not valid UTF-8");
    assert_eq!(ReadFile::decode("d", "héllo".as_bytes().to_vec()).unwrap(), "héllo");
    assert_eq!(
        ReadFile::too_large("big", 20_000_000),
        "read_file big: file is 20000000 bytes (limit 10485760). Use grep for targeted search."
    );
}

#[test]
fn shell_runs_command_and_reports_exit_code() {
    let res = CmdResult { stdout: "lightcode-ok\n".into(), stderr: String::new(), code: Some(0), timed_out: false };
    let out = shell_report("echo lightcode-ok", &res);
    assert!(out.contains("lightcode-ok"));
    assert!(out.contains("exit code: 0"));
    assert_eq!(out, "$ echo lightcode-ok\n--- stdout ---\nlightcode-ok\n\nexit code: 0\n");
    let res = CmdResult { stdout: String::new(), stderr: "boom".into(), code: None, timed_out: true };
    assert_eq!(shell_report("x", &res), "$ x\n--- stderr ---\nboom\n(timed out and killed)\n");
    assert_eq!(Shell::timeout_secs(None), 120);
    assert_eq!(Shell::timeout_secs(Some(9999)), 600);
    assert_eq!(WriteFile::report("x.txt", 5), "wrote 5 bytes to x.txt");
}

#[test]
fn git_argument_lists_and_outcomes() {
    assert_eq!(GitDiff::args(Some("src")), vec!["diff", "--", "src"]);
    assert_eq!(GitDiff::args(None), vec!["diff"]);
    assert_eq!(GitStatus::args(), vec!["status", "--short"]);
    assert_eq!(GitLog::args(None), vec!["log", "--oneline", "-n", "10"]);
    let args = GitLog::args(Some(3));
    let fail = CmdResult { stdout: String::new(), stderr: "  fatal: bad  \n".into(), code: Some(128), timed_out: false };
    assert_eq!(git_outcome(&args, fail).unwrap_err(), "git log --oneline -n 3 failed: fatal: bad");
    let fail = CmdResult { stdout: String::new(), stderr: String::new(), code: Some(1), timed_out: false };
    assert_eq!(git_outcome(&args, fail).unwrap_err(), "git log --oneline -n 3 failed: exit code 1");
    let ok = CmdResult { stdout: "abc\n".into(), stderr: String::new(), code: Some(0), timed_out: false };
    assert_eq!(git_outcome(&args, ok).unwrap(), "abc\n");
    let slow = CmdResult { stdout: String::new(), stderr: String::new(), code: None, timed_out: true };
    assert_eq!(git_outcome(&args, slow).unwrap_err(), "git command timed out");
}
