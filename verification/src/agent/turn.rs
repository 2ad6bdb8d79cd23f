//! One turn of the agent: what it records, which tool call runs next, and
//! when the turn ends. The model calls, permission prompts and tool runs
//! are made by the caller, which reports back.
use vstd::prelude::*;

use crate::agent::{mode_label, plan_blocks, plan_blocks_spec, AgentMode};
use crate::providers::{Message, ToolCall};
use crate::text::{chars_of, push_str_chars, string_of};

verus! {

/// Messages kept verbatim when the history is compacted.
pub const COMPACTION_KEEP_TAIL: usize = 12;

/// What the caller does next.
pub enum TurnAction {
    /// Ask the model for the next reply (compacting first when the history
    /// is over budget).
    CallModel,
    /// Clear this tool call with the permission check, run it, and report
    /// its result.
    RunTool(ToolCall),
    /// This tool call may not run in the current mode; report this result
    /// for it without running it.
    Blocked(ToolCall, String),
    /// The turn is over with this answer.
    Finish(String),
    /// The turn failed with this message.
    Fail(String),
}

/// The state of a turn: the model calls made, and the tool calls of the
/// last reply still to run.
pub struct Turn {
    pub mode: AgentMode,
    pub iteration: usize,
    pub max_iterations: usize,
    pub queue: Vec<ToolCall>,
    /// The id of the tool call being run.
    pub running: Option<String>,
}

/// The system message that sets the mode of a turn.
pub open spec fn mode_message_spec(mode: AgentMode) -> Seq<char> {
    "You are operating in "@ + mode_label(mode) + " mode.\n"@ + crate::agent::mode_instructions(mode)
}

/// The result reported for a tool that PLAN mode blocks.
pub open spec fn blocked_text(name: Seq<char>) -> Seq<char> {
    "tool error: "@ + name + " is blocked in PLAN mode (read-only). Use read/grep/glob/list/git instead."@
}

/// The result reported for a denied tool call.
pub open spec fn denied_text(name: Seq<char>, feedback: Option<Seq<char>>) -> Seq<char> {
    match feedback {
        Some(m) => "permission denied: the user denied "@ + name + ": "@ + m,
        None => "permission denied: "@ + name + " blocked by permission policy"@,
    }
}

/// The message of a turn that ran out of model calls.
pub open spec fn limit_text(max: nat) -> Seq<char> {
    "agent did not finish within "@ + crate::text::decimal(max) + " iterations"@
}

pub open spec fn call_view(c: ToolCall) -> (Seq<char>, Seq<char>, Seq<char>) {
    (c.id@, c.name@, c.arguments@)
}

pub open spec fn calls_view(v: Seq<ToolCall>) -> Seq<(Seq<char>, Seq<char>, Seq<char>)> {
    Seq::new(v.len(), |i: int| call_view(v[i]))
}

pub open spec fn ostr(o: Option<String>) -> Option<Seq<char>> {
    match o {
        Some(s) => Some(s@),
        None => None,
    }
}

/// The message text that sets the mode of a turn.
pub fn mode_message(mode: AgentMode) -> (r: String)
    ensures
        r@ == mode_message_spec(mode),
{
    let mut v = chars_of("You are operating in ");
    push_str_chars(&mut v, mode.label());
    push_str_chars(&mut v, " mode.\n");
    push_str_chars(&mut v, mode.instructions());
    string_of(&v)
}

/// The result of a denied tool call, with the user's reason when given.
pub fn denied_result(name: &str, feedback: Option<&str>) -> (r: String)
    ensures
        r@ == denied_text(
            name@,
            match feedback {
                Some(f) => Some(f@),
                None => None,
            },
        ),
{
    match feedback {
        Some(m) => {
            let mut v = chars_of("permission denied: the user denied ");
            push_str_chars(&mut v, name);
            push_str_chars(&mut v, ": ");
            push_str_chars(&mut v, m);
            string_of(&v)
        },
        None => {
            let mut v = chars_of("permission denied: ");
            push_str_chars(&mut v, name);
            push_str_chars(&mut v, " blocked by permission policy");
            string_of(&v)
        },
    }
}

/// The result of a tool that failed: `tool error: <message>`.
pub fn tool_error_result(message: &str) -> (r: String)
    ensures
        r@ == "tool error: "@ + message@,
{
    let mut v = chars_of("tool error: ");
    push_str_chars(&mut v, message);
    string_of(&v)
}

fn clone_call(c: &ToolCall) -> (r: ToolCall)
    ensures
        call_view(r) == call_view(*c),
{
    ToolCall { id: c.id.clone(), name: c.name.clone(), arguments: c.arguments.clone() }
}

impl Turn {
    /// Start a turn: the messages to add to the history (the mentions'
    /// context when there is one, the mode message, the prompt).
    pub fn start(mode: AgentMode, max_iterations: usize, input: &str, context: Option<String>) -> (r: (Turn, Vec<Message>))
        ensures
            r.0.mode == mode && r.0.iteration == 0 && r.0.max_iterations == max_iterations,
            r.0.queue@.len() == 0 && r.0.running is None,
            ({
                let ms = r.1@;
                let k: int = if context is Some { 1 } else { 0 };
                &&& ms.len() == k + 2
                &&& (context matches Some(c) ==> (ms[0] matches Message::System { content } && content@ == c@))
                &&& ms[k] matches Message::System { content } && content@ == mode_message_spec(mode)
                &&& ms[k + 1] matches Message::User { content } && content@ == input@
            }),
    {
        let mut ms: Vec<Message> = Vec::new();
        match context {
            Some(c) => ms.push(Message::System { content: c }),
            None => {},
        }
        ms.push(Message::System { content: mode_message(mode) });
        ms.push(Message::User { content: String::from_str(input) });
        (Turn { mode, iteration: 0, max_iterations, queue: Vec::new(), running: None }, ms)
    }

    /// The next step once the queued calls are taken in order: the next
    /// call (blocked in PLAN mode when it mutates), or the next model call,
    /// or the end of the iterations.
    fn next_action(&mut self) -> (r: TurnAction)
        ensures
            final(self).mode == old(self).mode,
            final(self).max_iterations == old(self).max_iterations,
            old(self).queue@.len() > 0 ==> {
                let c = old(self).queue@[0];
                &&& calls_view(final(self).queue@) == calls_view(old(self).queue@).drop_first()
                &&& final(self).iteration == old(self).iteration
                &&& final(self).running matches Some(id) && id@ == c.id@
                &&& if old(self).mode == AgentMode::Plan && plan_blocks_spec(c.name@) {
                    r matches TurnAction::Blocked(b, msg) && call_view(b) == call_view(c) && msg@ == blocked_text(c.name@)
                } else {
                    r matches TurnAction::RunTool(b) && call_view(b) == call_view(c)
                }
            },
            old(self).queue@.len() == 0 ==> {
                &&& final(self).queue@.len() == 0
                &&& final(self).running is None
                &&& final(self).iteration == (if old(self).iteration < usize::MAX { old(self).iteration + 1 } else { old(self).iteration as int })
                &&& if old(self).iteration + 1 >= old(self).max_iterations {
                    r matches TurnAction::Fail(m) && m@ == limit_text(old(self).max_iterations as nat)
                } else {
                    r is CallModel
                }
            },
    {
        if self.queue.len() > 0 {
            let ghost q0 = calls_view(self.queue@);
            let c = self.queue.remove(0);
            assert(calls_view(self.queue@) =~= q0.drop_first());
            self.running = Some(c.id.clone());
            if self.mode == AgentMode::Plan && plan_blocks(c.name.as_str()) {
                let mut v = chars_of("tool error: ");
                push_str_chars(&mut v, c.name.as_str());
                push_str_chars(&mut v, " is blocked in PLAN mode (read-only). Use read/grep/glob/list/git instead.");
                TurnAction::Blocked(c, string_of(&v))
            } else {
                TurnAction::RunTool(c)
            }
        } else {
            self.running = None;
            let done = self.iteration >= self.max_iterations || self.max_iterations - self.iteration <= 1;
            if self.iteration < usize::MAX {
                self.iteration = self.iteration + 1;
            }
            if done {
                let mut v = chars_of("agent did not finish within ");
                crate::text::push_decimal(&mut v, self.max_iterations);
                push_str_chars(&mut v, " iterations");
                TurnAction::Fail(string_of(&v))
            } else {
                TurnAction::CallModel
            }
        }
    }

    /// The model replied. Without tool calls its text is the answer (the
    /// reply is recorded with that text); otherwise the reply is recorded
    /// with its calls, which then run in order.
    pub fn on_reply(&mut self, content: Option<String>, reasoning: Option<String>, calls: Vec<ToolCall>) -> (r: (
        Message,
        TurnAction,
    ))
        requires
            old(self).queue@.len() == 0,
        ensures
            final(self).mode == old(self).mode,
            calls@.len() == 0 ==> {
                let text = match content {
                    Some(t) => t@,
                    None => Seq::<char>::empty(),
                };
                &&& r.0 matches Message::Assistant { content: c, reasoning: rs, tool_calls }
                    && ostr(c) == Some(text) && ostr(rs) == ostr(reasoning) && tool_calls@.len() == 0
                &&& r.1 matches TurnAction::Finish(t) && t@ == text
            },
            calls@.len() > 0 ==> {
                let c = calls@[0];
                &&& r.0 matches Message::Assistant { content: c2, reasoning: rs, tool_calls }
                    && ostr(c2) == ostr(content) && ostr(rs) == ostr(reasoning) && calls_view(tool_calls@)
                    == calls_view(calls@)
                &&& calls_view(final(self).queue@) == calls_view(calls@).drop_first()
                &&& if old(self).mode == AgentMode::Plan && plan_blocks_spec(c.name@) {
                    r.1 matches TurnAction::Blocked(b, msg) && call_view(b) == call_view(c) && msg@ == blocked_text(c.name@)
                } else {
                    r.1 matches TurnAction::RunTool(b) && call_view(b) == call_view(c)
                }
            },
    {
        if calls.len() == 0 {
            let text = match content {
                Some(t) => t,
                None => String::new(),
            };
            let m = Message::Assistant { content: Some(text.clone()), reasoning, tool_calls: Vec::new() };
            return (m, TurnAction::Finish(text));
        }
        let mut queue: Vec<ToolCall> = Vec::new();
        for k in 0..calls.len()
            invariant
                calls_view(queue@) == calls_view(calls@).take(k as int),
        {
            let ghost prev = calls_view(queue@);
            queue.push(clone_call(&calls[k]));
            assert(calls_view(queue@) =~= prev.push(call_view(calls@[k as int])));
        }
        assert(calls_view(calls@).take(calls@.len() as int) =~= calls_view(calls@));
        self.queue = queue;
        assert(calls_view(self.queue@)[0] == call_view(self.queue@[0]));
        assert(call_view(self.queue@[0]) == call_view(calls@[0]));
        let ghost q = calls_view(self.queue@);
        let m = Message::Assistant { content, reasoning, tool_calls: calls };
        let a = self.next_action();
        assert(q == calls_view(calls@));
        (m, a)
    }

    /// A tool call finished with `result` (or was blocked or denied with
    /// it): the result is recorded under the call's id; the next call runs,
    /// or the model is asked again.
    pub fn on_tool_done(&mut self, result: String) -> (r: (Message, TurnAction))
        requires
            old(self).running is Some,
        ensures
            final(self).mode == old(self).mode,
            r.0 matches Message::Tool { tool_call_id, content } && tool_call_id == old(self).running.unwrap()
                && content@ == result@,
            old(self).queue@.len() > 0 ==> {
                let c = old(self).queue@[0];
                &&& calls_view(final(self).queue@) == calls_view(old(self).queue@).drop_first()
                &&& if old(self).mode == AgentMode::Plan && plan_blocks_spec(c.name@) {
                    r.1 matches TurnAction::Blocked(b, msg) && call_view(b) == call_view(c) && msg@ == blocked_text(c.name@)
                } else {
                    r.1 matches TurnAction::RunTool(b) && call_view(b) == call_view(c)
                }
            },
            old(self).queue@.len() == 0 ==> if old(self).iteration + 1 >= old(self).max_iterations {
                r.1 matches TurnAction::Fail(m) && m@ == limit_text(old(self).max_iterations as nat)
            } else {
                r.1 is CallModel && final(self).iteration == old(self).iteration + 1
            },
    {
        let id = self.running.take().unwrap();
        let m = Message::Tool { tool_call_id: id, content: result };
        let a = self.next_action();
        (m, a)
    }
}

/// Where compaction cuts a history of `len` messages whose first is a
/// system message (`first_system`): the messages before the cut (after that
/// system message) are summarized, the last `COMPACTION_KEEP_TAIL` kept.
pub fn compaction_cut(len: usize, first_system: bool) -> (r: usize)
    ensures
        ({
            let rest: int = if first_system && len > 0 { len - 1 } else { len as int };
            let keep: int = if COMPACTION_KEEP_TAIL < rest { COMPACTION_KEEP_TAIL as int } else { rest };
            r == rest - keep
        }),
{
    let rest = if first_system && len > 0 {
        len - 1
    } else {
        len
    };
    let keep = if COMPACTION_KEEP_TAIL < rest {
        COMPACTION_KEEP_TAIL
    } else {
        rest
    };
    rest - keep
}

/// The system message that replaces the compacted messages: the model's
/// summary (trimmed) when it wrote one, else a note of how many messages
/// were dropped.
pub fn summary_message(summary: Option<&str>, dropped: usize) -> (r: String)
    ensures
        r@ == "Summary of earlier conversation:\n"@ + match summary {
            Some(s) => if crate::text::trim_spec(s@).len() > 0 {
                crate::text::trim_spec(s@)
            } else {
                "["@ + crate::text::decimal(dropped as nat) + " earlier messages compacted without summary]"@
            },
            None => "["@ + crate::text::decimal(dropped as nat) + " earlier messages compacted without summary]"@,
        },
{
    let mut v = chars_of("Summary of earlier conversation:\n");
    let t = match summary {
        Some(s) => crate::text::trim_chars(&chars_of(s)),
        None => Vec::new(),
    };
    if summary.is_some() && t.len() > 0 {
        crate::text::extend_chars(&mut v, &t);
    } else {
        push_str_chars(&mut v, "[");
        crate::text::push_decimal(&mut v, dropped);
        push_str_chars(&mut v, " earlier messages compacted without summary]");
    }
    string_of(&v)
}

/// Why a `question` call cannot be asked: it needs a prompt and at least
/// two options.
pub fn question_problem(prompt: &str, options: &Vec<String>) -> (r: Option<String>)
    ensures
        (prompt@.len() == 0 || options@.len() < 2) ==> (r matches Some(m) && m@
            == "tool error: question: need a prompt and at least 2 options"@),
        !(prompt@.len() == 0 || options@.len() < 2) ==> r is None,
{
    if chars_of(prompt).len() == 0 || options.len() < 2 {
        Some(String::from_str("tool error: question: need a prompt and at least 2 options"))
    } else {
        None
    }
}

/// The result of a question from the UI's reply: the chosen option, a
/// dismissal, or a closed channel (`None`).
pub fn question_result(reply: Option<Option<String>>) -> (r: String)
    ensures
        r@ == match reply {
            Some(Some(a)) => "User chose: "@ + a@,
            Some(None) => "User dismissed the question."@,
            None => "tool error: question channel closed"@,
        },
{
    match reply {
        Some(Some(a)) => {
            let mut v = chars_of("User chose: ");
            push_str_chars(&mut v, a.as_str());
            string_of(&v)
        },
        Some(None) => String::from_str("User dismissed the question."),
        None => String::from_str("tool error: question channel closed"),
    }
}

/// The result of a question answered on the terminal: the option whose
/// number (from 1) was typed, else no answer.
pub fn numbered_answer(line: &str, options: &Vec<String>) -> (r: String)
    ensures
        r@ == match crate::text::parse_usize_spec(crate::text::trim_spec(line@)) {
            Some(n) => if 1 <= n <= options@.len() {
                "User chose: "@ + options@[n - 1]@
            } else {
                "User did not answer."@
            },
            None => "User did not answer."@,
        },
{
    let t = crate::text::trim_chars(&chars_of(line));
    match crate::text::parse_usize(&t) {
        Some(n) => {
            if 1 <= n && n <= options.len() {
                let mut v = chars_of("User chose: ");
                push_str_chars(&mut v, options[n - 1].as_str());
                string_of(&v)
            } else {
                String::from_str("User did not answer.")
            }
        },
        None => String::from_str("User did not answer."),
    }
}

/// A sub-agent does not delegate further: an allowed `task` call there
/// gets this result instead of running.
pub fn nested_task_refusal(name: &str, nested: bool) -> (r: Option<String>)
    ensures
        nested && name@ == "task"@ ==> (r matches Some(t) && t@ == "tool error: task: nested sub-agents are not supported"@),
        !(nested && name@ == "task"@) ==> r is None,
{
    if nested && crate::text::eq_str(&chars_of(name), "task") {
        Some(String::from_str("tool error: task: nested sub-agents are not supported"))
    } else {
        None
    }
}

/// The instruction of a `task` call: its `prompt` argument, unless that is
/// missing or blank.
pub fn task_prompt(args: &str) -> (r: Result<String, String>)
    ensures
        match crate::providers::arg_str(args@, "prompt"@) {
            Some(p) if crate::text::trim_spec(p).len() > 0 => r matches Ok(x) && x@ == p,
            _ => r matches Err(e) && e@ == "tool error: task: missing 'prompt' argument"@,
        },
{
    match crate::providers::arg_string(args, "prompt") {
        Some(p) => {
            if crate::text::trim_chars(&chars_of(p.as_str())).len() > 0 {
                Ok(p)
            } else {
                Err(String::from_str("tool error: task: missing 'prompt' argument"))
            }
        },
        None => Err(String::from_str("tool error: task: missing 'prompt' argument")),
    }
}

/// What a `task` call reports: the sub-agent's answer, trimmed, or why it
/// failed.
pub fn subagent_result(outcome: Result<String, String>) -> (r: String)
    ensures
        r@ == match outcome {
            Ok(t) => "[sub-agent] "@ + crate::text::trim_spec(t@) + "\n"@,
            Err(e) => "tool error: task failed: "@ + e@,
        },
{
    match outcome {
        Ok(t) => {
            let mut v = chars_of("[sub-agent] ");
            let body = crate::text::trim_chars(&chars_of(t.as_str()));
            crate::text::extend_chars(&mut v, &body);
            push_str_chars(&mut v, "\n");
            string_of(&v)
        },
        Err(e) => {
            let mut v = chars_of("tool error: task failed: ");
            push_str_chars(&mut v, e.as_str());
            string_of(&v)
        },
    }
}

} // verus!
