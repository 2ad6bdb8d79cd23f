//! The agent's execution modes and the permission check in front of each
//! tool call.
pub mod context;
pub mod stream;
pub mod turn;

use vstd::prelude::*;

use crate::permissions::policy::{dangerous, is_dangerous_command, Level};
use crate::permissions::{Action, Choice};
use crate::text::{chars_of, eq_str, lowercase, lowercase_of, trim_chars, trim_spec};

verus! {

/// The agent's execution mode. Modes affect real runtime behavior (tool
/// permissions + system prompt), not just the TUI label.
#[derive(Debug, Clone, Copy, PartialEq, Eq, Structural)]
pub enum AgentMode {
    /// Read-only analysis: inspect, search, plan. No mutations.
    Plan,
    /// Standard coding mode with normal permissions.
    Build,
    /// Autonomous execution with minimal confirmation for routine actions.
    Auto,
}

/// The mode that follows `m` in the cycle PLAN → BUILD → AUTO → PLAN.
pub open spec fn next_mode(m: AgentMode) -> AgentMode {
    match m {
        AgentMode::Plan => AgentMode::Build,
        AgentMode::Build => AgentMode::Auto,
        AgentMode::Auto => AgentMode::Plan,
    }
}

/// The mode a name selects, case-insensitively, ignoring surrounding blanks.
pub open spec fn mode_named(s: Seq<char>) -> Option<AgentMode> {
    let l = lowercase_of(trim_spec(s));
    if l == "plan"@ {
        Some(AgentMode::Plan)
    } else if l == "build"@ {
        Some(AgentMode::Build)
    } else if l == "auto"@ {
        Some(AgentMode::Auto)
    } else {
        None
    }
}

pub open spec fn mode_label(m: AgentMode) -> Seq<char> {
    match m {
        AgentMode::Plan => "PLAN"@,
        AgentMode::Build => "BUILD"@,
        AgentMode::Auto => "AUTO"@,
    }
}

impl AgentMode {
    pub fn label(&self) -> (r: &'static str)
        ensures
            r@ == mode_label(*self),
    {
        match self {
            AgentMode::Plan => "PLAN",
            AgentMode::Build => "BUILD",
            AgentMode::Auto => "AUTO",
        }
    }

    pub fn description(&self) -> (r: &'static str)
        ensures
            r@ == (match *self {
                AgentMode::Plan => "Analyze and create a plan"@,
                AgentMode::Build => "Implement changes"@,
                AgentMode::Auto => "Execute autonomously"@,
            }),
    {
        match self {
            AgentMode::Plan => "Analyze and create a plan",
            AgentMode::Build => "Implement changes",
            AgentMode::Auto => "Execute autonomously",
        }
    }

    pub fn next(&self) -> (r: AgentMode)
        ensures
            r == next_mode(*self),
    {
        match self {
            AgentMode::Plan => AgentMode::Build,
            AgentMode::Build => AgentMode::Auto,
            AgentMode::Auto => AgentMode::Plan,
        }
    }

    /// The mode named by `s` (`plan`, `build` or `auto`, any case).
    pub fn from_str(s: &str) -> (r: Option<AgentMode>)
        ensures
            r == mode_named(s@),
    {
        let t = trim_chars(&chars_of(s));
        let l = lowercase(&t);
        if eq_str(&l, "plan") {
            Some(AgentMode::Plan)
        } else if eq_str(&l, "build") {
            Some(AgentMode::Build)
        } else if eq_str(&l, "auto") {
            Some(AgentMode::Auto)
        } else {
            None
        }
    }

    /// Mode-specific system instructions, appended before each turn.
    pub fn instructions(&self) -> (r: &'static str)
        ensures
            r@ == mode_instructions(*self),
    {
        match self {
            AgentMode::Plan => "Analyze the repository and produce an implementation plan. Do not modify files. Use read-only tools only.",
            AgentMode::Build => "Implement the user's request. Inspect the repository, make the necessary changes, and verify the implementation.",
            AgentMode::Auto => "Complete the user's task autonomously. Inspect, implement, test, diagnose failures, and iterate. Avoid unnecessary confirmation requests. Respect all tool and safety restrictions.",
        }
    }
}

/// Cycling through the modes three times comes back to the start.
pub proof fn law_mode_cycle(m: AgentMode)
    ensures
        next_mode(next_mode(next_mode(m))) == m,
        next_mode(m) != m,
{
}

/// Mutation tools that PLAN mode always blocks.
/// The instructions that shape a turn in each mode.
pub open spec fn mode_instructions(m: AgentMode) -> Seq<char> {
    match m {
        AgentMode::Plan => "Analyze the repository and produce an implementation plan. Do not modify files. Use read-only tools only."@,
        AgentMode::Build => "Implement the user's request. Inspect the repository, make the necessary changes, and verify the implementation."@,
        AgentMode::Auto => "Complete the user's task autonomously. Inspect, implement, test, diagnose failures, and iterate. Avoid unnecessary confirmation requests. Respect all tool and safety restrictions."@,
    }
}

pub open spec fn plan_blocks_spec(name: Seq<char>) -> bool {
    name == "write_file"@ || name == "edit_file"@ || name == "apply_patch"@ || name == "shell"@
        || name == "task"@ || name == "todowrite"@
}

/// Mutation tools that are always blocked in PLAN mode.
pub fn plan_blocks(name: &str) -> (r: bool)
    ensures
        r == plan_blocks_spec(name@),
{
    let n = chars_of(name);
    eq_str(&n, "write_file") || eq_str(&n, "edit_file") || eq_str(&n, "apply_patch") || eq_str(
        &n,
        "shell",
    ) || eq_str(&n, "task") || eq_str(&n, "todowrite")
}

/// What the agent reports to the UI while it works.
pub enum AgentEvent {
    Text(String),
    Reasoning(String),
    ToolStart { name: String, args: String },
    ToolOutput { name: String, output: String },
    /// A filesystem change captured before/after a mutation tool, rendered as
    /// a dedicated diff block.
    Diff { file: String, body: String },
    Permission { prompt: String, respond: tokio::sync::oneshot::Sender<Choice> },
    /// A `question` tool call: ask the user to pick from options.
    Question { prompt: String, options: Vec<String>, respond: tokio::sync::oneshot::Sender<Option<String>> },
    Done { ok: bool, message: String },
    /// A manual compaction finished; `removed` is how many messages were folded.
    Compact { removed: usize },
}

/// Result of the permission check for a tool call.
#[derive(Debug)]
pub enum ToolApproval {
    Allowed,
    Denied { feedback: Option<String> },
}

impl ToolApproval {
    pub fn matches_allowed(&self) -> (r: bool)
        ensures
            r == (*self is Allowed),
    {
        match self {
            ToolApproval::Allowed => true,
            ToolApproval::Denied { .. } => false,
        }
    }
}

/// What the permission check decides before a tool runs.
#[derive(Debug, Clone, Copy, PartialEq, Eq, Structural)]
pub enum Clearance {
    Allow,
    Deny,
    /// Ask the user; `dangerous` when a shell command looks destructive.
    Ask { dangerous: bool },
}

/// The permission decision: a dangerous shell command that the level does not
/// deny is always asked about, whatever was approved before; otherwise an
/// action allowed for the session passes; a `Deny` level blocks; the user is
/// asked when the level is `Ask`, except that AUTO mode lets routine actions
/// through.
pub open spec fn clearance_spec(session_allowed: bool, level: Level, dangerous_cmd: bool, mode: AgentMode) -> Clearance {
    if dangerous_cmd && level != Level::Deny {
        Clearance::Ask { dangerous: true }
    } else if session_allowed {
        Clearance::Allow
    } else if level == Level::Deny {
        Clearance::Deny
    } else if !(level == Level::Ask || dangerous_cmd) {
        Clearance::Allow
    } else if mode == AgentMode::Auto && !dangerous_cmd {
        Clearance::Allow
    } else {
        Clearance::Ask { dangerous: dangerous_cmd }
    }
}

/// Whether a shell call's command is dangerous: only shell actions with a
/// command are checked.
pub open spec fn shell_danger_spec(action: Action, command: Option<Seq<char>>) -> bool {
    action == Action::Shell && match command {
        Some(c) => dangerous(lowercase_of(trim_spec(c))),
        None => false,
    }
}

/// Whether the tool call is a dangerous shell command.
pub fn shell_danger(action: Action, command: Option<&str>) -> (r: bool)
    ensures
        r == shell_danger_spec(
            action,
            match command {
                Some(c) => Some(c@),
                None => None,
            },
        ),
{
    if action == Action::Shell {
        match command {
            Some(c) => is_dangerous_command(c),
            None => false,
        }
    } else {
        false
    }
}

/// The permission check in front of a tool call.
pub fn clearance(session_allowed: bool, level: Level, dangerous_cmd: bool, mode: AgentMode) -> (r: Clearance)
    ensures
        r == clearance_spec(session_allowed, level, dangerous_cmd, mode),
{
    if dangerous_cmd && level != Level::Deny {
        return Clearance::Ask { dangerous: true };
    }
    if session_allowed {
        return Clearance::Allow;
    }
    if level == Level::Deny {
        return Clearance::Deny;
    }
    let must_prompt = level == Level::Ask || dangerous_cmd;
    if !must_prompt {
        return Clearance::Allow;
    }
    if mode == AgentMode::Auto && !dangerous_cmd {
        return Clearance::Allow;
    }
    Clearance::Ask { dangerous: dangerous_cmd }
}

/// What an answer to a permission prompt does: the approval, whether the
/// action is remembered for the rest of the session, and whether it is
/// persisted as always approved.
pub struct ChoiceOutcome {
    pub approval: ToolApproval,
    pub remember: bool,
    pub persist: bool,
}

/// The outcome of the user's answer. With `keep_feedback` (answers that come
/// from the UI) a denial carries its feedback to the model; answers from a
/// plain prompter drop it.
pub fn choice_outcome(choice: Choice, keep_feedback: bool) -> (r: ChoiceOutcome)
    ensures
        r.remember == (choice is AllowForSession || choice is Always),
        r.persist == (choice is Always),
        (r.approval is Allowed) == !(choice is Deny),
        choice is Deny && keep_feedback ==> (r.approval matches ToolApproval::Denied { feedback }
            && feedback == choice->feedback),
        choice is Deny && !keep_feedback ==> (r.approval matches ToolApproval::Denied { feedback }
            && feedback is None),
{
    match choice {
        Choice::Allow => ChoiceOutcome { approval: ToolApproval::Allowed, remember: false, persist: false },
        Choice::AllowForSession => ChoiceOutcome { approval: ToolApproval::Allowed, remember: true, persist: false },
        Choice::Always => ChoiceOutcome { approval: ToolApproval::Allowed, remember: true, persist: true },
        Choice::Deny { feedback } => ChoiceOutcome {
            approval: ToolApproval::Denied { feedback: if keep_feedback { feedback } else { None } },
            remember: false,
            persist: false,
        },
    }
}

/// A `Deny` rule is never overridden by the mode: only an approval already
/// given for the session lets a denied action through.
pub proof fn law_deny_respected(level: Level, dangerous_cmd: bool, mode: AgentMode)
    requires
        level == Level::Deny,
    ensures
        clearance_spec(false, level, dangerous_cmd, mode) == Clearance::Deny,
{
}

/// AUTO mode asks only about dangerous commands.
pub proof fn law_auto_asks_only_dangerous(session_allowed: bool, level: Level, dangerous_cmd: bool)
    ensures
        clearance_spec(session_allowed, level, dangerous_cmd, AgentMode::Auto) is Ask ==> dangerous_cmd,
{
}

/// A dangerous shell command is asked about in every mode, whatever was
/// approved for the session before, unless the policy denies it outright.
pub proof fn law_dangerous_always_asks(session_allowed: bool, level: Level, mode: AgentMode)
    requires
        level != Level::Deny,
    ensures
        clearance_spec(session_allowed, level, true, mode) == (Clearance::Ask { dangerous: true }),
{
}

} // verus!
