use lightcode::goal::{
    evaluator_prompt, failure_fingerprint, parse_goal, parse_status_line, turn_prompt, FileChange,
    Goal, GoalContext, GoalEvaluation, GoalManager, GoalStatus, VerificationResult,
};

fn eval(completed: bool, reason: &str, remaining: &[&str]) -> GoalEvaluation {
    GoalEvaluation {
        completed,
        reason: reason.into(),
        remaining_work: remaining.iter().map(|s| s.to_string()).collect(),
        evidence: Vec::new(),
    }
}

fn vr(command: &str, code: i32) -> VerificationResult {
    VerificationResult { command: command.into(), exit_code: code, success: code == 0, output: String::new() }
}

#[test]
fn parse_goal_extracts_verify_and_max_turns() {
    let spec = parse_goal("fix all failing tests\nverify:\n  npm test\n  npm run lint\nmax_turns: 8", 10);
    assert_eq!(spec.description, "fix all failing tests");
    assert_eq!(spec.verify_commands, vec!["npm test", "npm run lint"]);
    assert_eq!(spec.max_turns, 8);
}

#[test]
fn parse_goal_inline_verify() {
    let spec = parse_goal("make backend compile\nverify: npm run build", 10);
    assert_eq!(spec.verify_commands, vec!["npm run build"]);
    assert_eq!(spec.max_turns, 10);
}

#[test]
fn parse_goal_edge_cases() {
    let spec = parse_goal("  first\n\n second  \nmax_turns: 0\nmax_turns: x", 0);
    assert_eq!(spec.description, "first\n\nsecond");
    assert_eq!(spec.max_turns, 1);
    assert!(spec.verify_commands.is_empty());
}

#[test]
fn changed_files_parsed_from_status_line() {
    let c = parse_status_line(" M src/auth/service.rs").unwrap();
    assert_eq!(c.status, "M");
    assert_eq!(c.path, "src/auth/service.rs");
    let a = parse_status_line("?? new.txt").unwrap();
    assert_eq!(a.status, "A");
    let d = parse_status_line(" D gone.rs").unwrap();
    assert_eq!(d.status, "D");
    assert_eq!(parse_status_line("R  a -> b").unwrap().status, "R");
    assert!(parse_status_line(" M").is_none());
    assert!(parse_status_line(" M    ").is_none());
}

#[test]
fn goal_new_clamps_turns() {
    let g = Goal::new("x".into(), vec![], 0, 42);
    assert_eq!(g.max_turns, 1);
    assert_eq!(g.status, GoalStatus::Pending);
    assert_eq!(g.started_at, 42);
    assert!(GoalStatus::Cancelled.is_stopped());
    assert!(!GoalStatus::Evaluating.is_stopped());
    assert_eq!(GoalStatus::MaxTurnsReached.label(), "max turns reached");
}

#[test]
fn fingerprint_lists_failures_and_remaining_work() {
    let mut g = Goal::new("x".into(), vec!["t".into()], 3, 0);
    g.last_evaluation = Some(eval(false, "r", &["a", "b"]));
    let fp = failure_fingerprint(&g, &vec![vr("npm test", 1), vr("ok", 0), vr("lint", -2)]);
    assert_eq!(fp, "npm test:1;lint:-2;a;b;");
}

#[test]
fn loop_prevention_stops_repeated_failures() {
    let g = Goal::new("g".into(), vec!["npm test".into()], 10, 0);
    let mut m = GoalManager::new(g);
    m.start();
    let mut stops = 0;
    for turn in 1..=3 {
        assert!(m.next_turn(false));
        m.begin_evaluation(vec![]);
        let stop = m.conclude_turn(&vec![vr("npm test", 1)], eval(false, "failing", &["fix"]));
        if stop {
            stops = turn;
            break;
        }
    }
    assert_eq!(stops, 3);
    assert_eq!(m.goal.status, GoalStatus::Failed);
    assert_eq!(m.goal.message, "No progress after 3 turns on the same failures.");
}

#[test]
fn lifecycle_pending_to_completed() {
    let g = Goal::new("g".into(), vec!["npm test".into()], 5, 0);
    let mut m = GoalManager::new(g);
    m.start();
    assert!(m.next_turn(false));
    m.begin_evaluation(vec![FileChange { status: "M".into(), path: "a.rs".into() }]);
    assert!(!m.conclude_turn(&vec![vr("npm test", 1)], eval(false, "still working", &["auth tests"])));
    assert!(m.next_turn(false));
    m.begin_evaluation(vec![]);
    // Verification failed: an evaluator claim of completion is not enough.
    assert!(!m.conclude_turn(&vec![vr("npm test", 1)], eval(true, "done", &[])));
    assert!(m.next_turn(false));
    m.begin_evaluation(vec![]);
    assert!(m.conclude_turn(&vec![vr("npm test", 0)], eval(true, "all tests pass", &[])));
    assert_eq!(m.goal.status, GoalStatus::Completed);
    assert_eq!(m.goal.message, "all tests pass");
    assert_eq!(m.goal.current_turn, 3);
}

#[test]
fn max_turns_and_cancellation() {
    let mut m = GoalManager::new(Goal::new("g".into(), vec![], 1, 0));
    m.start();
    assert!(m.next_turn(false));
    m.begin_evaluation(vec![]);
    assert!(!m.conclude_turn(&vec![], eval(false, "", &[])));
    assert!(!m.next_turn(false));
    m.wrap_up();
    assert_eq!(m.goal.status, GoalStatus::MaxTurnsReached);
    assert_eq!(m.goal.message, "Maximum turns reached: 1");

    let mut c = GoalManager::new(Goal::new("g".into(), vec![], 4, 0));
    c.start();
    assert!(!c.next_turn(true));
    assert_eq!(c.goal.status, GoalStatus::Cancelled);
    assert_eq!(c.goal.message, "Goal cancelled");

    let mut f = GoalManager::new(Goal::new("g".into(), vec![], 4, 0));
    f.start();
    assert!(f.next_turn(false));
    f.turn_failed(false, "boom");
    assert_eq!(f.goal.status, GoalStatus::Failed);
    assert_eq!(f.goal.message, "Turn 1 failed: boom");
}

#[test]
fn prompts_carry_goal_context() {
    let mut g = Goal::new("ship it".into(), vec!["cargo test".into()], 5, 0);
    g.current_turn = 2;
    g.last_evaluation = Some(eval(false, "tests fail", &["fix parser"]));
    g.changed_files = vec![FileChange { status: "M".into(), path: "src/lib.rs".into() }];
    let p = turn_prompt(&g);
    assert!(p.starts_with("You are working on a multi-turn goal."));
    assert!(p.contains("GOAL: ship it\n\nTURN: 2/5\n"));
    assert!(p.contains("\nDECLARED VERIFICATION (must pass; run them before finishing):\n  $ cargo test\n"));
    assert!(p.contains("  tests fail\n  Remaining work:\n    - fix parser\n"));
    assert!(p.contains("\nFiles changed so far:\n  M src/lib.rs\n"));
    let ctx = GoalContext {
        turn_summary: "did things".into(),
        verification: vec![VerificationResult {
            command: "cargo test".into(),
            exit_code: 101,
            success: false,
            output: "line1\nline2".into(),
        }],
        history_excerpt: String::new(),
    };
    let e = evaluator_prompt(&g, &ctx);
    assert!(e.starts_with("GOAL: ship it\n\n"));
    assert!(e.contains("  [FAIL] exit 101 $ cargo test\n      line1\n      line2\n"));
    assert!(e.contains("PREVIOUS EVALUATION (was NOT complete):\n  reason: tests fail\n  remaining: fix parser\n"));
    assert!(e.ends_with("CURRENT TURN SUMMARY (agent's report):\ndid things\n"));
    assert!(!e.contains("RECENT TOOL RESULTS"));
}

#[test]
fn parse_evaluation_json_tolerates_fences() {
    let ev = lightcode::goal::parse_evaluation_json(
        "Here is the result:\n```json\n{\"completed\": true, \"reason\": \"all pass\", \
         \"remaining_work\": [], \"evidence\": [\"npm test exit 0\"]}\n```",
    )
    .unwrap();
    assert!(ev.completed);
    assert_eq!(ev.reason, "all pass");
    assert_eq!(ev.evidence, vec!["npm test exit 0"]);
}

#[test]
fn parse_evaluation_json_defaults_and_failures() {
    let ev = lightcode::goal::parse_evaluation_json("{\"remaining_work\": [\"a\", 3, \"b\"]}").unwrap();
    assert!(!ev.completed);
    assert_eq!(ev.reason, "");
    assert_eq!(ev.remaining_work, vec!["a", "b"]);
    assert!(ev.evidence.is_empty());
    assert!(lightcode::goal::parse_evaluation_json("no json here").is_none());
    assert!(lightcode::goal::parse_evaluation_json("} backwards {").is_none());
    assert!(lightcode::goal::parse_evaluation_json("{not: json}").is_none());
}

#[test]
fn verification_commands_are_blocked_or_judged_by_their_run() {
    let b = lightcode::goal::blocked_verification("  SUDO rm -rf /").unwrap();
    assert_eq!(b.exit_code, -1);
    assert!(!b.success);
    assert_eq!(b.output, "blocked: command is not allowed as a verification command");
    assert!(lightcode::goal::blocked_verification("npm test").is_none());
    let run = lightcode::tools::exec::CmdResult {
        stdout: "ok".into(),
        stderr: String::new(),
        code: Some(0),
        timed_out: false,
    };
    let v = lightcode::goal::verification_from_run("npm test", &run);
    assert!(v.success);
    assert_eq!(v.exit_code, 0);
    assert_eq!(v.output, "--- stdout ---\nok\n");
    let late = lightcode::tools::exec::CmdResult { stdout: String::new(), stderr: "e".into(), code: None, timed_out: true };
    let v = lightcode::goal::verification_from_run("npm test", &late);
    assert!(!v.success);
    assert_eq!(v.exit_code, -1);
    assert_eq!(v.output, "--- stderr ---\ne\n(timed out and killed)\n");
}
