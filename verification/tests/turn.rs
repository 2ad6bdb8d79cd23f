use lightcode::providers::arg_strings;
use lightcode::agent::turn::{
    nested_task_refusal, numbered_answer, question_problem, question_result, subagent_result, task_prompt,
};
use lightcode::agent::turn::{compaction_cut, denied_result, mode_message, summary_message, tool_error_result, Turn, TurnAction};
use lightcode::agent::AgentMode;
use lightcode::providers::{Message, ToolCall};

fn call(id: &str, name: &str) -> ToolCall {
    ToolCall { id: id.into(), name: name.into(), arguments: "{}".into() }
}

#[test]
fn turn_runs_tools_then_finishes() {
    let (mut t, start) = Turn::start(AgentMode::Build, 50, "do it", Some("ctx".into()));
    assert_eq!(start.len(), 3);
    assert!(matches!(&start[0], Message::System { content } if content == "ctx"));
    assert!(matches!(&start[1], Message::System { content } if content.starts_with("You are operating in BUILD mode.\n")));
    assert!(matches!(&start[2], Message::User { content } if content == "do it"));
    let (m, a) = t.on_reply(Some("looking".into()), None, vec![call("c1", "grep"), call("c2", "shell")]);
    assert!(matches!(m, Message::Assistant { tool_calls, .. } if tool_calls.len() == 2));
    assert!(matches!(a, TurnAction::RunTool(c) if c.id == "c1"));
    let (m, a) = t.on_tool_done("found".into());
    assert!(matches!(m, Message::Tool { tool_call_id, content } if tool_call_id == "c1" && content == "found"));
    assert!(matches!(a, TurnAction::RunTool(c) if c.id == "c2"));
    let (_, a) = t.on_tool_done("ok".into());
    assert!(matches!(a, TurnAction::CallModel));
    let (m, a) = t.on_reply(None, Some("why".into()), vec![]);
    assert!(matches!(m, Message::Assistant { content: Some(c), .. } if c.is_empty()));
    assert!(matches!(a, TurnAction::Finish(x) if x.is_empty()));
}

#[test]
fn plan_mode_blocks_mutations_and_limits_iterations() {
    let (mut t, _) = Turn::start(AgentMode::Plan, 1, "plan", None);
    let (_, a) = t.on_reply(None, None, vec![call("c1", "write_file")]);
    match a {
        TurnAction::Blocked(c, msg) => {
            assert_eq!(c.id, "c1");
            assert_eq!(
                msg,
                "tool error: write_file is blocked in PLAN mode (read-only). Use read/grep/glob/list/git instead."
            );
        }
        _ => panic!("expected a blocked call"),
    }
    let (_, a) = t.on_tool_done("blocked".into());
    assert!(matches!(a, TurnAction::Fail(m) if m == "agent did not finish within 1 iterations"));
}

#[test]
fn turn_texts() {
    assert!(mode_message(AgentMode::Plan).starts_with("You are operating in PLAN mode.\n"));
    assert_eq!(denied_result("shell", Some("no")), "permission denied: the user denied shell: no");
    assert_eq!(denied_result("shell", None), "permission denied: shell blocked by permission policy");
    assert_eq!(tool_error_result("boom"), "tool error: boom");
    assert_eq!(compaction_cut(20, true), 7);
    assert_eq!(compaction_cut(5, false), 0);
    assert_eq!(summary_message(Some("  gist "), 3), "Summary of earlier conversation:\ngist");
    assert_eq!(
        summary_message(Some(" "), 3),
        "Summary of earlier conversation:\n[3 earlier messages compacted without summary]"
    );
}

#[test]
fn question_results() {
    let opts = vec!["red".to_string(), "blue".to_string()];
    assert!(question_problem("pick", &opts).is_none());
    assert_eq!(
        question_problem("", &opts).as_deref(),
        Some("tool error: question: need a prompt and at least 2 options")
    );
    assert!(question_problem("pick", &vec!["only".to_string()]).is_some());
    assert_eq!(question_result(Some(Some("blue".into()))), "User chose: blue");
    assert_eq!(question_result(Some(None)), "User dismissed the question.");
    assert_eq!(question_result(None), "tool error: question channel closed");
    assert_eq!(numbered_answer(" 2\n", &opts), "User chose: blue");
    assert_eq!(numbered_answer("3", &opts), "User did not answer.");
    assert_eq!(numbered_answer("x", &opts), "User did not answer.");
}

#[test]
fn sub_agents_do_not_delegate_further() {
    assert_eq!(
        nested_task_refusal("task", true).as_deref(),
        Some("tool error: task: nested sub-agents are not supported")
    );
    assert!(nested_task_refusal("task", false).is_none());
    assert!(nested_task_refusal("shell", true).is_none());
}

#[test]
fn task_calls_need_a_prompt() {
    assert_eq!(task_prompt(r#"{"description":"d","prompt":"do it"}"#), Ok("do it".to_string()));
    let missing = Err("tool error: task: missing 'prompt' argument".to_string());
    assert_eq!(task_prompt(r#"{"description":"d"}"#), missing);
    assert_eq!(task_prompt(r#"{"prompt":"   "}"#), missing);
    assert_eq!(subagent_result(Ok("  answer \n".to_string())), "[sub-agent] answer\n");
    assert_eq!(subagent_result(Err("boom".to_string())), "tool error: task failed: boom");
}

#[test]
fn question_options_keep_only_strings() {
    assert_eq!(arg_strings(r#"{"prompt":"p","options":["a",2,"b"]}"#, "options"), vec!["a".to_string(), "b".to_string()]);
    assert!(arg_strings(r#"{"options":"a"}"#, "options").is_empty());
    assert!(arg_strings("not json", "options").is_empty());
}
