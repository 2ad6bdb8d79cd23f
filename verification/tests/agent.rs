use lightcode::agent::{choice_outcome, clearance, plan_blocks, shell_danger, AgentMode, Clearance};
use lightcode::permissions::policy::Level;
use lightcode::permissions::{Action, Choice};

#[test]
fn mode_cycles_plan_build_auto() {
    let mut m = AgentMode::Plan;
    assert_eq!(m.next(), AgentMode::Build);
    m = m.next();
    assert_eq!(m.next(), AgentMode::Auto);
    m = m.next();
    assert_eq!(m.next(), AgentMode::Plan);
    assert_eq!(AgentMode::from_str("plan"), Some(AgentMode::Plan));
    assert_eq!(AgentMode::from_str("PLAN"), Some(AgentMode::Plan));
    assert_eq!(AgentMode::from_str("Auto"), Some(AgentMode::Auto));
    assert_eq!(AgentMode::from_str("nope"), None);
}

#[test]
fn mode_labels_and_texts() {
    assert_eq!(AgentMode::Build.label(), "BUILD");
    assert_eq!(AgentMode::Plan.description(), "Analyze and create a plan");
    assert_eq!(AgentMode::from_str("  build \n"), Some(AgentMode::Build));
    assert!(AgentMode::Plan.instructions().contains("Do not modify files"));
}

#[test]
fn plan_mode_blocks_mutations_only() {
    for t in ["write_file", "edit_file", "apply_patch", "shell", "task", "todowrite"] {
        assert!(plan_blocks(t), "{t}");
    }
    for t in ["read_file", "grep", "glob", "git_diff", "web_fetch"] {
        assert!(!plan_blocks(t), "{t}");
    }
}

#[test]
fn clearance_decisions() {
    assert_eq!(clearance(true, Level::Deny, true, AgentMode::Build), Clearance::Allow);
    assert_eq!(clearance(false, Level::Deny, false, AgentMode::Auto), Clearance::Deny);
    assert_eq!(clearance(false, Level::Allow, false, AgentMode::Build), Clearance::Allow);
    assert_eq!(clearance(false, Level::Ask, false, AgentMode::Build), Clearance::Ask { dangerous: false });
    assert_eq!(clearance(false, Level::Ask, false, AgentMode::Auto), Clearance::Allow);
    assert_eq!(clearance(false, Level::Allow, true, AgentMode::Auto), Clearance::Ask { dangerous: true });
    assert_eq!(clearance(true, Level::Allow, true, AgentMode::Build), Clearance::Ask { dangerous: true });
    assert_eq!(clearance(true, Level::Ask, true, AgentMode::Auto), Clearance::Ask { dangerous: true });
}

#[test]
fn dangerous_shell_detection() {
    assert!(shell_danger(Action::Shell, Some("  rm -rf / ")));
    assert!(!shell_danger(Action::Shell, Some("ls -la")));
    assert!(!shell_danger(Action::Shell, None));
    assert!(!shell_danger(Action::Write, Some("rm -rf /")));
}

#[test]
fn choices_map_to_outcomes() {
    let o = choice_outcome(Choice::AllowForSession, true);
    assert!(o.approval.matches_allowed() && o.remember && !o.persist);
    let o = choice_outcome(Choice::Always, false);
    assert!(o.approval.matches_allowed() && o.remember && o.persist);
    let o = choice_outcome(Choice::Deny { feedback: Some("no".to_string()) }, true);
    assert!(!o.approval.matches_allowed() && !o.remember);
    match o.approval {
        lightcode::agent::ToolApproval::Denied { feedback } => assert_eq!(feedback.as_deref(), Some("no")),
        _ => panic!("expected a denial"),
    }
    let o = choice_outcome(Choice::Deny { feedback: Some("no".to_string()) }, false);
    match o.approval {
        lightcode::agent::ToolApproval::Denied { feedback } => assert!(feedback.is_none()),
        _ => panic!("expected a denial"),
    }
}
