//! Autonomous goal execution: the goal's state, the parsing of `/goal`
//! input, the prompts built from it, and the decisions of the turn loop
//! that drives the agent, verifies results and judges completion.
use vstd::prelude::*;

use crate::text::{
    byte_len, chars_of, decimal, extend_chars, push_decimal, utf8_len, parse_usize, parse_usize_spec, push_str_chars, slice_chars, starts_with,
    starts_with_chars, str_lines, str_lines_of, string_of, trim_chars, trim_spec, view2,
};

verus! {

/// A goal's lifecycle status.
#[derive(Debug, Clone, Copy, PartialEq, Eq, Structural)]
pub enum GoalStatus {
    Pending,
    Running,
    Evaluating,
    Completed,
    Failed,
    MaxTurnsReached,
    Cancelled,
}

pub open spec fn status_label(s: GoalStatus) -> Seq<char> {
    match s {
        GoalStatus::Pending => "pending"@,
        GoalStatus::Running => "running"@,
        GoalStatus::Evaluating => "evaluating"@,
        GoalStatus::Completed => "completed"@,
        GoalStatus::Failed => "failed"@,
        GoalStatus::MaxTurnsReached => "max turns reached"@,
        GoalStatus::Cancelled => "cancelled"@,
    }
}

/// The statuses in which the goal loop has ended.
pub open spec fn stopped(s: GoalStatus) -> bool {
    s is Completed || s is Failed || s is MaxTurnsReached || s is Cancelled
}

impl GoalStatus {
    pub fn label(&self) -> (r: &'static str)
        ensures
            r@ == status_label(*self),
    {
        match self {
            GoalStatus::Pending => "pending",
            GoalStatus::Running => "running",
            GoalStatus::Evaluating => "evaluating",
            GoalStatus::Completed => "completed",
            GoalStatus::Failed => "failed",
            GoalStatus::MaxTurnsReached => "max turns reached",
            GoalStatus::Cancelled => "cancelled",
        }
    }

    pub fn is_stopped(&self) -> (r: bool)
        ensures
            r == stopped(*self),
    {
        match self {
            GoalStatus::Completed | GoalStatus::Failed | GoalStatus::MaxTurnsReached
            | GoalStatus::Cancelled => true,
            _ => false,
        }
    }
}

/// Actual result of running one declared verification command.
#[derive(Debug, Clone)]
pub struct VerificationResult {
    pub command: String,
    pub exit_code: i32,
    pub success: bool,
    pub output: String,
}

/// Structured completion judgment from the goal evaluator.
#[derive(Debug, Clone)]
pub struct GoalEvaluation {
    pub completed: bool,
    pub reason: String,
    pub remaining_work: Vec<String>,
    pub evidence: Vec<String>,
}

impl GoalEvaluation {
    /// A judgment that the goal is not complete, for the given reason.
    pub fn incomplete(reason: String) -> (r: Self)
        ensures
            !r.completed,
            r.reason@ == reason@,
            r.remaining_work@.len() == 0,
            r.evidence@.len() == 0,
    {
        GoalEvaluation { completed: false, reason, remaining_work: Vec::new(), evidence: Vec::new() }
    }
}

/// A single file touched by the goal (git short status: M/A/D/R).
#[derive(Debug, Clone)]
pub struct FileChange {
    pub status: String,
    pub path: String,
}

/// A goal's persistent state.
#[derive(Debug, Clone)]
pub struct Goal {
    pub description: String,
    pub verify_commands: Vec<String>,
    pub max_turns: u32,
    pub current_turn: u32,
    pub status: GoalStatus,
    /// Unix seconds when the goal started.
    pub started_at: u64,
    pub last_evaluation: Option<GoalEvaluation>,
    pub changed_files: Vec<FileChange>,
    /// Final status message shown in the TUI.
    pub message: String,
}

/// The string views of a list of strings.
pub open spec fn strs(v: Seq<String>) -> Seq<Seq<char>> {
    Seq::new(v.len(), |k: int| v[k]@)
}

impl Goal {
    /// A pending goal with no turns taken; at least one turn is allowed.
    pub fn new(description: String, verify_commands: Vec<String>, max_turns: u32, started_at: u64) -> (r: Self)
        ensures
            r.description@ == description@,
            strs(r.verify_commands@) == strs(verify_commands@),
            r.max_turns == if max_turns >= 1 { max_turns } else { 1 },
            r.current_turn == 0,
            r.status == GoalStatus::Pending,
            r.started_at == started_at,
            r.last_evaluation is None,
            r.changed_files@.len() == 0,
            r.message@.len() == 0,
    {
        Goal {
            description,
            verify_commands,
            max_turns: if max_turns >= 1 { max_turns } else { 1 },
            current_turn: 0,
            status: GoalStatus::Pending,
            started_at,
            last_evaluation: None,
            changed_files: Vec::new(),
            message: String::new(),
        }
    }
}

/// Parsed `/goal` input, decoupled from the persistent `Goal`.
#[derive(Debug, Clone)]
pub struct GoalSpec {
    pub description: String,
    pub verify_commands: Vec<String>,
    pub max_turns: u32,
}

fn clone_strings(v: &Vec<String>) -> (r: Vec<String>)
    ensures
        strs(r@) == strs(v@),
{
    let mut out: Vec<String> = Vec::new();
    for k in 0..v.len()
        invariant
            strs(out@) =~= strs(v@).take(k as int),
    {
        let c = v[k].clone();
        let ghost prev = out@;
        out.push(c);
        assert(strs(out@) =~= strs(prev).push(v@[k as int]@));
        assert(strs(v@).take(k + 1) =~= strs(v@).take(k as int).push(v@[k as int]@));
    }
    assert(strs(v@).take(v@.len() as int) =~= strs(v@));
    out
}

impl GoalSpec {
    /// A new goal for this spec, started at `started_at` (Unix seconds).
    pub fn to_goal(&self, started_at: u64) -> (r: Goal)
        ensures
            r.description@ == self.description@,
            strs(r.verify_commands@) == strs(self.verify_commands@),
            r.max_turns == if self.max_turns >= 1 { self.max_turns } else { 1 },
            r.current_turn == 0,
            r.status == GoalStatus::Pending,
            r.started_at == started_at,
            r.last_evaluation is None,
            r.changed_files@.len() == 0,
            r.message@.len() == 0,
    {
        Goal::new(self.description.clone(), clone_strings(&self.verify_commands), self.max_turns, started_at)
    }
}

/// `s.parse::<u32>()`.
pub open spec fn parse_u32_spec(s: Seq<char>) -> Option<nat> {
    match parse_usize_spec(s) {
        Some(v) => if v <= u32::MAX {
            Some(v)
        } else {
            None
        },
        None => None,
    }
}

/// State of `/goal` parsing after some lines: description so far, verify
/// commands, turn limit, and whether a `verify:` line was seen.
pub open spec fn parse_goal_from(lines: Seq<Seq<char>>, k: int, default_max: nat) -> (
    Seq<char>,
    Seq<Seq<char>>,
    nat,
    bool,
)
    decreases k,
{
    if k <= 0 {
        (seq![], seq![], default_max, false)
    } else {
        let (desc, cmds, max, in_verify) = parse_goal_from(lines, k - 1, default_max);
        let t = trim_spec(lines[k - 1]);
        if starts_with(t, "max_turns:"@) {
            match parse_u32_spec(trim_spec(t.skip("max_turns:"@.len() as int))) {
                Some(n) => (desc, cmds, if n >= 1 { n } else { 1 }, in_verify),
                None => (desc, cmds, max, in_verify),
            }
        } else if starts_with(t, "verify:"@) {
            let cmd = trim_spec(t.skip("verify:"@.len() as int));
            (desc, if cmd.len() > 0 { cmds.push(cmd) } else { cmds }, max, true)
        } else if in_verify {
            (desc, if t.len() > 0 { cmds.push(t) } else { cmds }, max, in_verify)
        } else {
            (if desc.len() > 0 { desc.push('\n') + t } else { desc + t }, cmds, max, in_verify)
        }
    }
}

/// The `/goal` input parsed: the description (trimmed), the verify
/// commands, and the turn limit (at least 1).
pub open spec fn parse_goal_spec(input: Seq<char>, default_max: nat) -> (Seq<char>, Seq<Seq<char>>, nat) {
    let lines = str_lines(input);
    let (desc, cmds, max, _) = parse_goal_from(lines, lines.len() as int, default_max);
    (trim_spec(desc), cmds, if max >= 1 { max } else { 1 })
}

fn parse_u32(s: &[char]) -> (r: Option<u32>)
    ensures
        r == (match parse_u32_spec(s@) {
            Some(v) => Some(v as u32),
            None => None::<u32>,
        }),
{
    match parse_usize(s) {
        Some(v) => if v <= 0xffff_ffff {
            Some(v as u32)
        } else {
            None
        },
        None => None,
    }
}

/// Parse `/goal <objective>` input. Supports:
///
/// ```text
/// fix all failing tests
/// verify:
///   npm test
///   npm run lint
/// max_turns: 8
/// ```
///
/// `verify:` lines and `max_turns:` are optional; when absent the evaluator
/// determines verification from the objective and repository.
pub fn parse_goal(input: &str, default_max_turns: u32) -> (r: GoalSpec)
    ensures
        (r.description@, strs(r.verify_commands@), r.max_turns as nat) == parse_goal_spec(
            input@,
            default_max_turns as nat,
        ),
{
    let iv = chars_of(input);
    let lines = str_lines_of(&iv);
    let ghost lv = view2(lines@);
    let mut description: Vec<char> = Vec::new();
    let mut verify_commands: Vec<String> = Vec::new();
    let mut max_turns = default_max_turns;
    let mut in_verify = false;
    let max_key = chars_of("max_turns:");
    let verify_key = chars_of("verify:");
    let mut k: usize = 0;
    while k < lines.len()
        invariant
            k <= lines@.len(),
            lv == view2(lines@),
            lv == str_lines(input@),
            max_key@ == "max_turns:"@,
            verify_key@ == "verify:"@,
            (description@, strs(verify_commands@), max_turns as nat, in_verify) == parse_goal_from(
                lv,
                k as int,
                default_max_turns as nat,
            ),
        decreases lines@.len() - k,
    {
        let t = trim_chars(&lines[k]);
        if starts_with_chars(&t, &max_key) {
            let rest = slice_chars(&t, max_key.len(), t.len());
            assert(rest@ =~= t@.skip("max_turns:"@.len() as int));
            let n = parse_u32(&trim_chars(&rest));
            match n {
                Some(n) => {
                    max_turns = if n >= 1 {
                        n
                    } else {
                        1
                    };
                },
                None => {},
            }
        } else if starts_with_chars(&t, &verify_key) {
            in_verify = true;
            let rest = slice_chars(&t, verify_key.len(), t.len());
            assert(rest@ =~= t@.skip("verify:"@.len() as int));
            let cmd = trim_chars(&rest);
            if cmd.len() > 0 {
                let ghost prev = strs(verify_commands@);
                verify_commands.push(string_of(&cmd));
                assert(strs(verify_commands@) =~= prev.push(cmd@));
            }
        } else if in_verify {
            if t.len() > 0 {
                let ghost prev = strs(verify_commands@);
                verify_commands.push(string_of(&t));
                assert(strs(verify_commands@) =~= prev.push(t@));
            }
        } else {
            if description.len() > 0 {
                description.push('\n');
            }
            crate::text::extend_chars(&mut description, &t);
        }
        k += 1;
    }
    let d = trim_chars(&description);
    GoalSpec {
        description: string_of(&d),
        verify_commands,
        max_turns: if max_turns >= 1 {
            max_turns
        } else {
            1
        },
    }
}

/// Evidence given to the evaluator for one completion judgment.
pub struct GoalContext {
    /// The agent's final summary text for the turn.
    pub turn_summary: String,
    pub verification: Vec<VerificationResult>,
    /// Bounded tail of tool results from this turn.
    pub history_excerpt: String,
}

/// Decimal text of an integer, with a leading `-` when negative.
pub open spec fn int_text(n: int) -> Seq<char> {
    if n < 0 {
        seq!['-'] + decimal((-n) as nat)
    } else {
        decimal(n as nat)
    }
}

/// Append the decimal text of `n` (as `format!("{n}")`).
pub fn push_i32(out: &mut Vec<char>, n: i32)
    ensures
        final(out)@ == old(out)@ + int_text(n as int),
{
    if n < 0 {
        out.push('-');
        let m: i64 = -(n as i64);
        push_decimal(out, m as usize);
    } else {
        push_decimal(out, n as usize);
    }
}

/// `<command>:<exit code>;` for each failed verification.
pub open spec fn failed_part(vs: Seq<VerificationResult>) -> Seq<char>
    decreases vs.len(),
{
    if vs.len() == 0 {
        seq![]
    } else {
        let v = vs.last();
        failed_part(vs.drop_last()) + if v.success {
            Seq::<char>::empty()
        } else {
            v.command@ + seq![':'] + int_text(v.exit_code as int) + seq![';']
        }
    }
}

/// `<item>;` for each item.
pub open spec fn semis(items: Seq<Seq<char>>) -> Seq<char>
    decreases items.len(),
{
    if items.len() == 0 {
        seq![]
    } else {
        semis(items.drop_last()) + items.last() + seq![';']
    }
}

/// Signature of the current failure state: the failed verifications, then
/// the remaining work of the last evaluation.
pub open spec fn fingerprint_spec(goal: Goal, verification: Seq<VerificationResult>) -> Seq<char> {
    failed_part(verification) + match goal.last_evaluation {
        Some(e) => semis(strs(e.remaining_work@)),
        None => Seq::<char>::empty(),
    }
}

fn push_semis(out: &mut Vec<char>, items: &Vec<String>)
    ensures
        final(out)@ == old(out)@ + semis(strs(items@)),
{
    let ghost base = out@;
    let ghost iv = strs(items@);
    for k in 0..items.len()
        invariant
            iv == strs(items@),
            out@ == base + semis(iv.take(k as int)),
    {
        push_str_chars(out, items[k].as_str());
        out.push(';');
        assert(iv.take(k + 1).drop_last() =~= iv.take(k as int));
        assert(out@ =~= base + semis(iv.take(k + 1)));
    }
    assert(iv.take(items@.len() as int) =~= iv);
}

/// Signature of the current failure state, to stop repeated ineffective turns.
pub fn failure_fingerprint(goal: &Goal, verification: &Vec<VerificationResult>) -> (r: String)
    ensures
        r@ == fingerprint_spec(*goal, verification@),
{
    let mut s: Vec<char> = Vec::new();
    for k in 0..verification.len()
        invariant
            s@ == failed_part(verification@.take(k as int)),
    {
        let v = &verification[k];
        assert(verification@.take(k + 1).drop_last() =~= verification@.take(k as int));
        if !v.success {
            push_str_chars(&mut s, v.command.as_str());
            s.push(':');
            push_i32(&mut s, v.exit_code);
            s.push(';');
        }
        assert(s@ =~= failed_part(verification@.take(k + 1)));
    }
    assert(verification@.take(verification@.len() as int) =~= verification@);
    match &goal.last_evaluation {
        Some(e) => push_semis(&mut s, &e.remaining_work),
        None => {
            assert(s@ =~= s@ + Seq::<char>::empty());
        },
    }
    string_of(&s)
}

/// Whether the first `n` bytes of `t` end on a character boundary, and
/// what follows them.
pub open spec fn lands(t: Seq<char>, n: int) -> bool
    decreases t.len(),
{
    if n == 0 {
        true
    } else if t.len() == 0 || n < 0 {
        false
    } else {
        lands(t.drop_first(), n - utf8_len(t[0]))
    }
}

pub open spec fn after_bytes(t: Seq<char>, n: int) -> Seq<char>
    decreases t.len(),
{
    if n <= 0 || t.len() == 0 {
        t
    } else {
        after_bytes(t.drop_first(), n - utf8_len(t[0]))
    }
}

/// Byte `k` (0 or 1) of the UTF-8 text `t` is the ASCII character `c`.
pub open spec fn byte_is(t: Seq<char>, k: int, c: char) -> bool {
    if k == 0 {
        t.len() > 0 && t[0] == c
    } else {
        t.len() > 1 && (t[0] as u32) < 0x80 && t[1] == c
    }
}

/// The `git status --short` code of a line: deletions first, then
/// modifications, additions (staged or untracked), renames; anything else
/// counts as modified.
pub open spec fn status_code(t: Seq<char>) -> Seq<char> {
    if byte_is(t, 1, 'D') || byte_is(t, 0, 'D') {
        "D"@
    } else if byte_is(t, 1, 'M') || byte_is(t, 0, 'M') {
        "M"@
    } else if byte_is(t, 0, 'A') || byte_is(t, 0, '?') || byte_is(t, 1, '?') {
        "A"@
    } else if byte_is(t, 0, 'R') {
        "R"@
    } else {
        "M"@
    }
}

/// One `git status --short` line (`XY path`) as `(code, path)`; `None` when
/// the line is shorter than three bytes or its path is blank.
pub open spec fn status_line_spec(t: Seq<char>) -> Option<(Seq<char>, Seq<char>)> {
    if byte_len(t) < 3 {
        None
    } else {
        let path = trim_spec(after_bytes(t, 3));
        if path.len() == 0 {
            None
        } else {
            Some((status_code(t), path))
        }
    }
}

/// A `git status --short` line is read by its two status columns `XY`: a
/// deletion in either column gives `D`; otherwise a modification in either
/// gives `M`; otherwise a staged addition (`X` is `A`) or an untracked file
/// (`??`) gives `A`; otherwise a rename (`X` is `R`) gives `R`; anything else
/// counts as `M`. The path is the rest of the line after the columns and
/// their space, trimmed.
pub proof fn law_status_columns(t: Seq<char>)
    requires
        t.len() >= 2,
        (t[0] as u32) < 0x80,
        byte_len(t) >= 3,
        trim_spec(after_bytes(t, 3)).len() > 0,
    ensures
        ({
            let (x, y) = (t[0], t[1]);
            let code = if x == 'D' || y == 'D' {
                "D"@
            } else if x == 'M' || y == 'M' {
                "M"@
            } else if x == 'A' || x == '?' || y == '?' {
                "A"@
            } else if x == 'R' {
                "R"@
            } else {
                "M"@
            };
            status_line_spec(t) == Some((code, trim_spec(after_bytes(t, 3))))
        }),
{
}

/// A staged addition (`X` is `A`, `Y` neither `D` nor `M`) is reported as
/// `A`.
pub proof fn law_staged_addition_is_added(t: Seq<char>)
    requires
        t.len() >= 2,
        t[0] == 'A',
        t[1] != 'D' && t[1] != 'M',
        byte_len(t) >= 3,
        trim_spec(after_bytes(t, 3)).len() > 0,
    ensures
        status_line_spec(t) matches Some((code, _)) && code == "A"@,
{
    law_status_columns(t);
}

/// Parse one `git status --short` line into a `FileChange`.
/// Format: two status columns (`XY`), a space, then the path.
pub fn parse_status_line(line: &str) -> (r: Option<FileChange>)
    requires
        byte_len(line@) >= 3 ==> lands(line@, 3),
    ensures
        match status_line_spec(line@) {
            Some((code, path)) => r matches Some(c) && c.status@ == code && c.path@ == path,
            None => r is None,
        },
{
    let t = chars_of(line);
    let n = crate::text::str_byte_len(line);
    if n < 3 {
        return None;
    }
    // Find the character index at byte 3.
    let tlen = t.len();
    let mut k: usize = 0;
    let mut b: usize = 0;
    assert(t@.skip(0) =~= t@);
    assert(t@.take(0) =~= Seq::<char>::empty());
    while b < 3
        invariant
            t@ == line@,
            tlen == t@.len(),
            n == byte_len(t@),
            n >= 3,
            k <= t@.len(),
            b == byte_len(t@.take(k as int)),
            b < 3 + 4,
            lands(line@, 3) == lands(t@.skip(k as int), 3 - b),
            after_bytes(line@, 3) == after_bytes(t@.skip(k as int), 3 - b),
        decreases t@.len() - k,
    {
        proof {
            if k == t@.len() {
                assert(t@.take(k as int) =~= t@);
            }
        }
        assert(k < t@.len());
        let c = t[k];
        let w = crate::text::char_utf8_len(c);
        proof {
            assert(t@.take(k + 1).drop_last() =~= t@.take(k as int));
            crate::text::lemma_utf8_len_pos(c);
            assert(t@.skip(k as int).drop_first() =~= t@.skip(k + 1));
        }
        b = b + w;
        k += 1;
    }
    assert(b == 3);
    let rest = slice_chars(&t, k, t.len());
    assert(rest@ =~= t@.skip(k as int));
    let path = trim_chars(&rest);
    if path.len() == 0 {
        return None;
    }
    let x0 = t[0];
    let x_ascii = (x0 as u32) < 0x80;
    let is_x = |c: char| -> (r: bool)
        ensures
            r == byte_is(t@, 0, c),
        { t[0] == c };
    let y_is = |c: char| -> (r: bool)
        ensures
            r == byte_is(t@, 1, c),
        { t.len() > 1 && x_ascii && t[1] == c };
    let st = if y_is('D') || is_x('D') {
        "D"
    } else if y_is('M') || is_x('M') {
        "M"
    } else if is_x('A') || is_x('?') || y_is('?') {
        "A"
    } else if is_x('R') {
        "R"
    } else {
        "M"
    };
    Some(FileChange { status: String::from_str(st), path: string_of(&path) })
}

/// `<pre><item>\n` for each item.
pub open spec fn lined(items: Seq<Seq<char>>, pre: Seq<char>) -> Seq<char>
    decreases items.len(),
{
    if items.len() == 0 {
        seq![]
    } else {
        lined(items.drop_last(), pre) + pre + items.last() + seq!['\n']
    }
}

fn push_lined(out: &mut Vec<char>, items: &Vec<String>, pre: &str)
    ensures
        final(out)@ == old(out)@ + lined(strs(items@), pre@),
{
    let ghost base = out@;
    let ghost iv = strs(items@);
    for k in 0..items.len()
        invariant
            iv == strs(items@),
            out@ == base + lined(iv.take(k as int), pre@),
    {
        push_str_chars(out, pre);
        push_str_chars(out, items[k].as_str());
        out.push('\n');
        assert(iv.take(k + 1).drop_last() =~= iv.take(k as int));
        assert(out@ =~= base + lined(iv.take(k + 1), pre@));
    }
    assert(iv.take(items@.len() as int) =~= iv);
}

/// `  <status> <path>\n` for each changed file.
pub open spec fn change_lines(cs: Seq<FileChange>) -> Seq<char>
    decreases cs.len(),
{
    if cs.len() == 0 {
        seq![]
    } else {
        change_lines(cs.drop_last()) + "  "@ + cs.last().status@ + seq![' '] + cs.last().path@
            + seq!['\n']
    }
}

fn push_changes(out: &mut Vec<char>, cs: &Vec<FileChange>)
    ensures
        final(out)@ == old(out)@ + change_lines(cs@),
{
    let ghost base = out@;
    for k in 0..cs.len()
        invariant
            out@ == base + change_lines(cs@.take(k as int)),
    {
        push_str_chars(out, "  ");
        push_str_chars(out, cs[k].status.as_str());
        out.push(' ');
        push_str_chars(out, cs[k].path.as_str());
        out.push('\n');
        assert(cs@.take(k + 1).drop_last() =~= cs@.take(k as int));
        assert(out@ =~= base + change_lines(cs@.take(k + 1)));
    }
    assert(cs@.take(cs@.len() as int) =~= cs@);
}

/// The goal and the turn count.
pub open spec fn turn_head(g: Goal) -> Seq<char> {
    "You are working on a multi-turn goal. Continue from the current repository state; do not restart from scratch.\n\nGOAL: "@
        + g.description@ + "\n\nTURN: "@ + decimal(g.current_turn as nat) + seq!['/'] + decimal(
        g.max_turns as nat,
    ) + seq!['\n']
}

/// The declared verification, when there is any.
pub open spec fn turn_verify(g: Goal) -> Seq<char> {
    if g.verify_commands@.len() > 0 {
        "\nDECLARED VERIFICATION (must pass; run them before finishing):\n"@ + lined(
            strs(g.verify_commands@),
            "  $ "@,
        )
    } else {
        Seq::<char>::empty()
    }
}

/// The previous evaluation and its remaining work, when there was one.
pub open spec fn turn_eval(g: Goal) -> Seq<char> {
    match g.last_evaluation {
        Some(e) => "\nPREVIOUS EVALUATION (goal was NOT complete):\n"@ + "  "@ + e.reason@ + seq!['\n']
            + if e.remaining_work@.len() > 0 {
            "  Remaining work:\n"@ + lined(strs(e.remaining_work@), "    - "@)
        } else {
            Seq::<char>::empty()
        },
        None => Seq::<char>::empty(),
    }
}

/// The files changed so far, when there are any.
pub open spec fn turn_changes(g: Goal) -> Seq<char> {
    if g.changed_files@.len() > 0 {
        "\nFiles changed so far:\n"@ + change_lines(g.changed_files@)
    } else {
        Seq::<char>::empty()
    }
}

/// The prompt for the next agent turn of a goal.
pub open spec fn turn_prompt_spec(g: Goal) -> Seq<char> {
    turn_head(g) + turn_verify(g) + turn_eval(g) + turn_changes(g)
        + "\nWork autonomously toward this goal: inspect, implement, verify, then report what you changed and what verification you ran. Run the declared verification commands before you finish."@
}

fn push_turn_head(out: &mut Vec<char>, g: &Goal)
    ensures
        final(out)@ == old(out)@ + turn_head(*g),
{
    let ghost base = out@;
    push_str_chars(out, "You are working on a multi-turn goal. Continue from the current repository state; do not restart from scratch.\n\nGOAL: ");
    push_str_chars(out, g.description.as_str());
    push_str_chars(out, "\n\nTURN: ");
    push_decimal(out, g.current_turn as usize);
    out.push('/');
    push_decimal(out, g.max_turns as usize);
    out.push('\n');
    assert(out@ =~= base + turn_head(*g));
}

fn push_turn_eval(out: &mut Vec<char>, g: &Goal)
    ensures
        final(out)@ == old(out)@ + turn_eval(*g),
{
    let ghost base = out@;
    match &g.last_evaluation {
        Some(e) => {
            push_str_chars(out, "\nPREVIOUS EVALUATION (goal was NOT complete):\n");
            push_str_chars(out, "  ");
            push_str_chars(out, e.reason.as_str());
            out.push('\n');
            let ghost mid = out@;
            if e.remaining_work.len() > 0 {
                push_str_chars(out, "  Remaining work:\n");
                push_lined(out, &e.remaining_work, "    - ");
            }
        },
        None => {},
    }
    assert(out@ =~= base + turn_eval(*g));
}

/// Build the bounded prompt for the next agent turn: the goal, the turn
/// count, the declared verification, the last evaluation and the files
/// changed so far.
pub fn turn_prompt(g: &Goal) -> (r: String)
    ensures
        r@ == turn_prompt_spec(*g),
{
    let mut out: Vec<char> = Vec::new();
    push_turn_head(&mut out, g);
    let ghost p1 = out@;
    if g.verify_commands.len() > 0 {
        push_str_chars(&mut out, "\nDECLARED VERIFICATION (must pass; run them before finishing):\n");
        push_lined(&mut out, &g.verify_commands, "  $ ");
    }
    assert(out@ =~= p1 + turn_verify(*g));
    push_turn_eval(&mut out, g);
    let ghost p3 = out@;
    if g.changed_files.len() > 0 {
        push_str_chars(&mut out, "\nFiles changed so far:\n");
        push_changes(&mut out, &g.changed_files);
    }
    assert(out@ =~= p3 + turn_changes(*g));
    push_str_chars(&mut out, "\nWork autonomously toward this goal: inspect, implement, verify, then report what you changed and what verification you ran. Run the declared verification commands before you finish.");
    assert(out@ =~= turn_prompt_spec(*g));
    string_of(&out)
}

/// `s` with every newline followed by six spaces (`replace('\n', "\n      ")`).
pub open spec fn indent6(s: Seq<char>) -> Seq<char>
    decreases s.len(),
{
    if s.len() == 0 {
        seq![]
    } else {
        indent6(s.drop_last()) + if s.last() == '\n' {
            "\n      "@
        } else {
            seq![s.last()]
        }
    }
}

/// At most this many characters of a command's output reach the evaluator.
pub const OUTPUT_TAIL: usize = 800;

/// One verification result as the evaluator sees it.
pub open spec fn result_text(v: VerificationResult) -> Seq<char> {
    let tail = if v.output@.len() <= OUTPUT_TAIL {
        v.output@
    } else {
        v.output@.take(OUTPUT_TAIL as int)
    };
    "  ["@ + (if v.success {
        "PASS"@
    } else {
        "FAIL"@
    }) + "] exit "@ + int_text(v.exit_code as int) + " $ "@ + v.command@ + seq!['\n'] + if tail.len()
        > 0 {
        "      "@ + indent6(tail) + seq!['\n']
    } else {
        Seq::<char>::empty()
    }
}

pub open spec fn results_text(vs: Seq<VerificationResult>) -> Seq<char>
    decreases vs.len(),
{
    if vs.len() == 0 {
        seq![]
    } else {
        results_text(vs.drop_last()) + result_text(vs.last())
    }
}

/// The declared verification and its results.
pub open spec fn verify_section(goal: Goal, ctx: GoalContext) -> Seq<char> {
    if goal.verify_commands@.len() > 0 {
        "DECLARED VERIFICATION COMMANDS (must all pass):\n"@ + lined(strs(goal.verify_commands@), "  $ "@)
            + seq!['\n'] + "VERIFICATION RESULTS:\n"@ + results_text(ctx.verification@) + seq!['\n']
    } else {
        Seq::<char>::empty()
    }
}

/// The previous evaluation, when there was one.
pub open spec fn eval_section(goal: Goal) -> Seq<char> {
    match goal.last_evaluation {
        Some(e) => "PREVIOUS EVALUATION (was NOT complete):\n"@ + "  reason: "@ + e.reason@ + seq!['\n']
            + lined(strs(e.remaining_work@), "  remaining: "@) + seq!['\n'],
        None => Seq::<char>::empty(),
    }
}

/// The files changed so far and the recent tool results, when there are any.
pub open spec fn context_section(goal: Goal, ctx: GoalContext) -> Seq<char> {
    (if goal.changed_files@.len() > 0 {
        "FILES CHANGED SO FAR:\n"@ + change_lines(goal.changed_files@) + seq!['\n']
    } else {
        Seq::<char>::empty()
    }) + (if ctx.history_excerpt@.len() > 0 {
        "RECENT TOOL RESULTS (bounded):\n"@ + ctx.history_excerpt@ + seq!['\n']
    } else {
        Seq::<char>::empty()
    })
}

/// The evidence the evaluator is asked to judge.
pub open spec fn evaluator_prompt_spec(goal: Goal, ctx: GoalContext) -> Seq<char> {
    "GOAL: "@ + goal.description@ + "\n\n"@ + verify_section(goal, ctx) + eval_section(goal)
        + context_section(goal, ctx) + "CURRENT TURN SUMMARY (agent's report):\n"@ + ctx.turn_summary@
        + seq!['\n']
}

fn push_result(out: &mut Vec<char>, v: &VerificationResult)
    ensures
        final(out)@ == old(out)@ + result_text(*v),
{
    let ghost base = out@;
    push_str_chars(out, "  [");
    push_str_chars(out, if v.success { "PASS" } else { "FAIL" });
    push_str_chars(out, "] exit ");
    push_i32(out, v.exit_code);
    push_str_chars(out, " $ ");
    push_str_chars(out, v.command.as_str());
    out.push('\n');
    let ov = chars_of(v.output.as_str());
    let end = if ov.len() <= OUTPUT_TAIL {
        ov.len()
    } else {
        OUTPUT_TAIL
    };
    let tail = slice_chars(&ov, 0, end);
    let ghost tv = if v.output@.len() <= OUTPUT_TAIL {
        v.output@
    } else {
        v.output@.take(OUTPUT_TAIL as int)
    };
    assert(tail@ =~= tv);
    let ghost head = out@;
    if tail.len() > 0 {
        push_str_chars(out, "      ");
        let ghost before = out@;
        for k in 0..tail.len()
            invariant
                out@ == before + indent6(tail@.take(k as int)),
        {
            let ghost pre = out@;
            if tail[k] == '\n' {
                push_str_chars(out, "\n      ");
            } else {
                out.push(tail[k]);
            }
            assert(tail@.take(k + 1).drop_last() =~= tail@.take(k as int));
            assert(out@ =~= before + indent6(tail@.take(k + 1)));
        }
        assert(tail@.take(tail@.len() as int) =~= tail@);
        out.push('\n');
    }
    assert(out@ =~= base + result_text(*v));
}

fn push_verify_section(out: &mut Vec<char>, goal: &Goal, ctx: &GoalContext)
    ensures
        final(out)@ == old(out)@ + verify_section(*goal, *ctx),
{
    let ghost base = out@;
    if goal.verify_commands.len() > 0 {
        push_str_chars(out, "DECLARED VERIFICATION COMMANDS (must all pass):\n");
        push_lined(out, &goal.verify_commands, "  $ ");
        out.push('\n');
        push_str_chars(out, "VERIFICATION RESULTS:\n");
        let ghost before = out@;
        for k in 0..ctx.verification.len()
            invariant
                out@ == before + results_text(ctx.verification@.take(k as int)),
        {
            push_result(out, &ctx.verification[k]);
            assert(ctx.verification@.take(k + 1).drop_last() =~= ctx.verification@.take(k as int));
        }
        assert(ctx.verification@.take(ctx.verification@.len() as int) =~= ctx.verification@);
        out.push('\n');
    }
    assert(out@ =~= base + verify_section(*goal, *ctx));
}

fn push_eval_section(out: &mut Vec<char>, goal: &Goal)
    ensures
        final(out)@ == old(out)@ + eval_section(*goal),
{
    let ghost base = out@;
    match &goal.last_evaluation {
        Some(e) => {
            push_str_chars(out, "PREVIOUS EVALUATION (was NOT complete):\n");
            push_str_chars(out, "  reason: ");
            push_str_chars(out, e.reason.as_str());
            out.push('\n');
            push_lined(out, &e.remaining_work, "  remaining: ");
            out.push('\n');
        },
        None => {},
    }
    assert(out@ =~= base + eval_section(*goal));
}

fn push_context_section(out: &mut Vec<char>, goal: &Goal, ctx: &GoalContext)
    ensures
        final(out)@ == old(out)@ + context_section(*goal, *ctx),
{
    let ghost base = out@;
    if goal.changed_files.len() > 0 {
        push_str_chars(out, "FILES CHANGED SO FAR:\n");
        push_changes(out, &goal.changed_files);
        out.push('\n');
    }
    let ghost mid = out@;
    proof {
        crate::text::lemma_byte_len_zero(ctx.history_excerpt@);
    }
    if crate::text::str_byte_len(ctx.history_excerpt.as_str()) > 0 {
        push_str_chars(out, "RECENT TOOL RESULTS (bounded):\n");
        push_str_chars(out, ctx.history_excerpt.as_str());
        out.push('\n');
    }
    assert(out@ =~= base + context_section(*goal, *ctx));
}

/// The evaluator's prompt: the goal, its declared verification and the
/// results of running it, the previous evaluation, changed files, recent
/// tool results, and the agent's report of the turn.
pub fn evaluator_prompt(goal: &Goal, ctx: &GoalContext) -> (r: String)
    ensures
        r@ == evaluator_prompt_spec(*goal, *ctx),
{
    let mut out: Vec<char> = Vec::new();
    push_str_chars(&mut out, "GOAL: ");
    push_str_chars(&mut out, goal.description.as_str());
    push_str_chars(&mut out, "\n\n");
    push_verify_section(&mut out, goal, ctx);
    push_eval_section(&mut out, goal);
    push_context_section(&mut out, goal, ctx);
    push_str_chars(&mut out, "CURRENT TURN SUMMARY (agent's report):\n");
    push_str_chars(&mut out, ctx.turn_summary.as_str());
    out.push('\n');
    assert(out@ =~= evaluator_prompt_spec(*goal, *ctx));
    string_of(&out)
}

/// The same failure signature this many turns in a row ends the goal.
pub const MAX_REPEATED_FAILURES: u32 = 3;

/// Loop prevention after a turn that did not complete the goal: from the
/// last signature and its repeat count and this turn's signature, the new
/// signature, count, and whether the goal stops for lack of progress. An
/// empty signature resets the count.
pub open spec fn progress_step(last: Seq<char>, repeated: nat, fp: Seq<char>) -> (Seq<char>, nat, bool) {
    if fp.len() == 0 {
        (Seq::empty(), 0, false)
    } else if fp == last {
        (last, repeated + 1, repeated + 1 >= MAX_REPEATED_FAILURES)
    } else {
        (fp, 1, false)
    }
}

/// All declared verification passed (or none was declared).
pub open spec fn verify_ok(goal: Goal, verification: Seq<VerificationResult>) -> bool {
    goal.verify_commands@.len() == 0 || forall|k: int|
        0 <= k < verification.len() ==> (#[trigger] verification[k]).success
}

/// The message of a verification command that is not run.
pub open spec fn blocked_text() -> Seq<char> {
    "blocked: command is not allowed as a verification command"@
}

/// A declared verification command that may not run: a dangerous one is
/// reported as failed with exit code -1, without running it.
pub fn blocked_verification(command: &str) -> (r: Option<VerificationResult>)
    ensures
        crate::permissions::policy::dangerous(crate::text::lowercase_of(crate::text::trim_spec(command@))) ==> (r matches Some(
            v,
        ) && v.command@ == command@ && v.exit_code == -1 && !v.success && v.output@ == blocked_text()),
        !crate::permissions::policy::dangerous(crate::text::lowercase_of(crate::text::trim_spec(command@))) ==> r is None,
{
    if crate::permissions::policy::is_dangerous_command(command) {
        Some(VerificationResult {
            command: String::from_str(command),
            exit_code: -1,
            success: false,
            output: String::from_str("blocked: command is not allowed as a verification command"),
        })
    } else {
        None
    }
}

/// The output kept of a verification run: each non-empty stream under its
/// heading, and a note when it timed out.
pub open spec fn run_output(stdout: Seq<char>, stderr: Seq<char>, timed_out: bool) -> Seq<char> {
    (if stdout.len() > 0 { "--- stdout ---\n"@ + stdout + "\n"@ } else { seq![] }) + (if stderr.len() > 0 {
        "--- stderr ---\n"@ + stderr + "\n"@
    } else {
        seq![]
    }) + if timed_out { "(timed out and killed)\n"@ } else { seq![] }
}

/// The result of a verification command that ran: it passed when it ended
/// in time with exit code 0 (a missing code counts as -1); its output is
/// bounded like a tool's.
pub fn verification_from_run(command: &str, run: &crate::tools::exec::CmdResult) -> (r: VerificationResult)
    ensures
        r.command@ == command@,
        r.exit_code == match run.code {
            Some(c) => c as int,
            None => -1int,
        },
        r.success == (!run.timed_out && run.code == Some(0i32)),
        r.output@ == crate::tools::bound_spec(run_output(run.stdout@, run.stderr@, run.timed_out)),
{
    let mut out: Vec<char> = Vec::new();
    let so = chars_of(run.stdout.as_str());
    if so.len() > 0 {
        push_str_chars(&mut out, "--- stdout ---\n");
        crate::text::extend_chars(&mut out, &so);
        push_str_chars(&mut out, "\n");
    }
    let ghost a = out@;
    let se = chars_of(run.stderr.as_str());
    if se.len() > 0 {
        push_str_chars(&mut out, "--- stderr ---\n");
        crate::text::extend_chars(&mut out, &se);
        push_str_chars(&mut out, "\n");
    }
    let ghost b = out@;
    if run.timed_out {
        push_str_chars(&mut out, "(timed out and killed)\n");
    }
    assert(out@ =~= run_output(run.stdout@, run.stderr@, run.timed_out));
    let code: i32 = match run.code {
        Some(c) => c,
        None => -1,
    };
    VerificationResult {
        command: String::from_str(command),
        exit_code: code,
        success: !run.timed_out && code == 0 && run.code.is_some(),
        output: crate::tools::bound(string_of(&out)),
    }
}

/// Orchestrates the goal loop around the agent's turn pipeline: it keeps
/// the goal and the loop-prevention state and decides each step; the
/// caller runs the turns, the verification commands and the evaluator.
pub struct GoalManager {
    pub goal: Goal,
    /// The failure signature of the last turn that had one.
    pub last_fingerprint: String,
    /// How many turns in a row ended with that signature.
    pub repeated: u32,
}

impl GoalManager {
    pub open spec fn last_fingerprint_view(&self) -> Seq<char> {
        self.last_fingerprint@
    }

    pub open spec fn repeated_view(&self) -> nat {
        self.repeated as nat
    }

    /// The turn count never exceeds the limit, and a goal that keeps
    /// running has fewer repeats than the limit.
    pub open spec fn wf(&self) -> bool {
        &&& self.goal.current_turn <= self.goal.max_turns
        &&& (self.repeated_view() < MAX_REPEATED_FAILURES || stopped(self.goal.status))
    }

    pub fn new(goal: Goal) -> (r: Self)
        ensures
            r.goal == goal,
            r.last_fingerprint_view().len() == 0,
            r.repeated_view() == 0,
    {
        GoalManager { goal, last_fingerprint: String::new(), repeated: 0 }
    }

    /// Repeats of the current failure signature.
    pub fn repeated(&self) -> (r: u32)
        ensures
            r == self.repeated_view(),
    {
        self.repeated
    }

    pub fn finish(&mut self, status: GoalStatus, message: String)
        ensures
            final(self).goal == (Goal { status, message, ..old(self).goal }),
            final(self).last_fingerprint_view() == old(self).last_fingerprint_view(),
            final(self).repeated_view() == old(self).repeated_view(),
    {
        self.goal.status = status;
        self.goal.message = message;
    }

    /// The loop starts running.
    pub fn start(&mut self)
        ensures
            final(self).goal == (Goal { status: GoalStatus::Running, ..old(self).goal }),
            final(self).last_fingerprint_view() == old(self).last_fingerprint_view(),
            final(self).repeated_view() == old(self).repeated_view(),
    {
        self.goal.status = GoalStatus::Running;
    }

    /// Whether another turn runs: not when the turn limit is reached; a
    /// cancelled goal stops as cancelled; otherwise the turn count advances.
    pub fn next_turn(&mut self, cancelled: bool) -> (r: bool)
        requires
            old(self).wf(),
            !stopped(old(self).goal.status),
        ensures
            final(self).wf(),
            final(self).last_fingerprint_view() == old(self).last_fingerprint_view(),
            final(self).repeated_view() == old(self).repeated_view(),
            old(self).goal.current_turn >= old(self).goal.max_turns ==> !r && final(self).goal
                == old(self).goal,
            old(self).goal.current_turn < old(self).goal.max_turns && cancelled ==> !r && final(self).goal == (Goal {
                status: GoalStatus::Cancelled,
                message: final(self).goal.message,
                ..old(self).goal
            }) && final(self).goal.message@ == "Goal cancelled"@,
            old(self).goal.current_turn < old(self).goal.max_turns && !cancelled ==> r && final(self).goal == (Goal {
                current_turn: (old(self).goal.current_turn + 1) as u32,
                status: GoalStatus::Running,
                ..old(self).goal
            }),
    {
        if self.goal.current_turn >= self.goal.max_turns {
            return false;
        }
        if cancelled {
            self.finish(GoalStatus::Cancelled, String::from_str("Goal cancelled"));
            return false;
        }
        self.goal.current_turn = self.goal.current_turn + 1;
        self.goal.status = GoalStatus::Running;
        true
    }

    /// A turn ended in an error: cancelled when cancellation caused it,
    /// failed otherwise.
    pub fn turn_failed(&mut self, cancelled: bool, error: &str)
        ensures
            final(self).last_fingerprint_view() == old(self).last_fingerprint_view(),
            final(self).repeated_view() == old(self).repeated_view(),
            final(self).goal == (Goal {
                status: if cancelled {
                    GoalStatus::Cancelled
                } else {
                    GoalStatus::Failed
                },
                message: final(self).goal.message,
                ..old(self).goal
            }),
            final(self).goal.message@ == if cancelled {
                "Goal cancelled"@
            } else {
                "Turn "@ + decimal(old(self).goal.current_turn as nat) + " failed: "@ + error@
            },
    {
        if cancelled {
            self.finish(GoalStatus::Cancelled, String::from_str("Goal cancelled"));
        } else {
            let mut m: Vec<char> = Vec::new();
            push_str_chars(&mut m, "Turn ");
            push_decimal(&mut m, self.goal.current_turn as usize);
            push_str_chars(&mut m, " failed: ");
            push_str_chars(&mut m, error);
            self.finish(GoalStatus::Failed, string_of(&m));
        }
    }

    /// The turn ran: record the changed files and start evaluating.
    pub fn begin_evaluation(&mut self, changed_files: Vec<FileChange>)
        ensures
            final(self).goal == (Goal {
                status: GoalStatus::Evaluating,
                changed_files,
                ..old(self).goal
            }),
            final(self).last_fingerprint_view() == old(self).last_fingerprint_view(),
            final(self).repeated_view() == old(self).repeated_view(),
    {
        self.goal.changed_files = changed_files;
        self.goal.status = GoalStatus::Evaluating;
    }

    /// Judge a turn from its verification results and the evaluator's
    /// verdict. The goal completes only when every declared verification
    /// passed and the evaluator found it complete; otherwise the same
    /// failure signature `MAX_REPEATED_FAILURES` turns in a row fails it.
    /// Returns whether the loop stops.
    pub fn conclude_turn(&mut self, verification: &Vec<VerificationResult>, evaluation: GoalEvaluation) -> (r: bool)
        requires
            old(self).wf(),
            !stopped(old(self).goal.status),
            verification@.len() == old(self).goal.verify_commands@.len(),
            forall|k: int|
                0 <= k < verification@.len() ==> (#[trigger] verification@[k]).command@
                    == old(self).goal.verify_commands@[k]@,
        ensures
            final(self).wf(),
            final(self).goal.last_evaluation == Some(evaluation),
            ({
                let g1 = Goal { last_evaluation: Some(evaluation), ..old(self).goal };
                if verify_ok(old(self).goal, verification@) && evaluation.completed {
                    &&& r
                    &&& final(self).goal == (Goal {
                        status: GoalStatus::Completed,
                        message: final(self).goal.message,
                        ..g1
                    })
                    &&& final(self).goal.message@ == if evaluation.reason@.len() == 0 {
                        "Goal completed"@
                    } else {
                        evaluation.reason@
                    }
                } else {
                    let (fp, n, stop) = progress_step(
                        old(self).last_fingerprint_view(),
                        old(self).repeated_view(),
                        fingerprint_spec(g1, verification@),
                    );
                    &&& r == stop
                    &&& final(self).last_fingerprint_view() == fp
                    &&& final(self).repeated_view() == n
                    &&& stop ==> final(self).goal == (Goal {
                        status: GoalStatus::Failed,
                        message: final(self).goal.message,
                        ..g1
                    }) && final(self).goal.message@ == "No progress after "@ + decimal(n)
                        + " turns on the same failures."@
                    &&& !stop ==> final(self).goal == g1
                }
            }),
    {
        let completed = evaluation.completed;
        let reason_empty = crate::text::str_byte_len(evaluation.reason.as_str()) == 0;
        proof {
            crate::text::lemma_byte_len_zero(evaluation.reason@);
        }
        let reason = evaluation.reason.clone();
        let mut ok = true;
        if self.goal.verify_commands.len() > 0 {
            for k in 0..verification.len()
                invariant
                    ok == forall|j: int| 0 <= j < k ==> (#[trigger] verification@[j]).success,
            {
                if !verification[k].success {
                    ok = false;
                }
            }
        }
        self.goal.last_evaluation = Some(evaluation);
        if ok && completed {
            let message = if reason_empty {
                String::from_str("Goal completed")
            } else {
                reason
            };
            self.finish(GoalStatus::Completed, message);
            return true;
        }
        let fp = failure_fingerprint(&self.goal, verification);
        proof {
            crate::text::lemma_byte_len_zero(fp@);
        }
        if crate::text::str_byte_len(fp.as_str()) == 0 {
            self.repeated = 0;
            self.last_fingerprint = String::new();
        } else if fp == self.last_fingerprint {
            self.repeated = self.repeated + 1;
            if self.repeated >= MAX_REPEATED_FAILURES {
                let mut m: Vec<char> = Vec::new();
                push_str_chars(&mut m, "No progress after ");
                push_decimal(&mut m, self.repeated as usize);
                push_str_chars(&mut m, " turns on the same failures.");
                self.finish(GoalStatus::Failed, string_of(&m));
                return true;
            }
        } else {
            self.repeated = 1;
            self.last_fingerprint = fp;
        }
        false
    }

    /// After the loop: a goal still running or evaluating ran out of turns.
    pub fn wrap_up(&mut self)
        ensures
            final(self).last_fingerprint_view() == old(self).last_fingerprint_view(),
            final(self).repeated_view() == old(self).repeated_view(),
            (old(self).goal.status is Running || old(self).goal.status is Evaluating) ==> final(self).goal == (Goal {
                status: GoalStatus::MaxTurnsReached,
                message: final(self).goal.message,
                ..old(self).goal
            }) && final(self).goal.message@ == "Maximum turns reached: "@ + decimal(
                old(self).goal.max_turns as nat,
            ),
            !(old(self).goal.status is Running || old(self).goal.status is Evaluating) ==> final(self).goal == old(self).goal,
    {
        if self.goal.status == GoalStatus::Running || self.goal.status == GoalStatus::Evaluating {
            let mut m: Vec<char> = Vec::new();
            push_str_chars(&mut m, "Maximum turns reached: ");
            push_decimal(&mut m, self.goal.max_turns as usize);
            self.finish(GoalStatus::MaxTurnsReached, string_of(&m));
        }
    }
}

/// The same non-empty failure signature three turns in a row stops the
/// goal, whatever came before.
pub proof fn law_repeated_failures_stop(last: Seq<char>, repeated: nat, fp: Seq<char>)
    requires
        fp.len() > 0,
    ensures
        ({
            let (l1, n1, s1) = progress_step(last, repeated, fp);
            let (l2, n2, s2) = progress_step(l1, n1, fp);
            let (l3, n3, s3) = progress_step(l2, n2, fp);
            s1 || s2 || s3
        }),
{
}

/// A turn without a failure signature never stops the goal and clears the
/// repeat count.
pub proof fn law_clean_turn_resets(last: Seq<char>, repeated: nat)
    ensures
        progress_step(last, repeated, Seq::empty()) == (Seq::<char>::empty(), 0nat, false),
{
}

pub type StrItemsV = Option<Seq<Option<Seq<char>>>>;

/// The fields of an evaluator reply that matter, as read by
/// `serde_json::from_str::<serde_json::Value>`: `completed` when it is a
/// boolean, `reason` when a string, and the items of `remaining_work` and
/// `evidence` when arrays (each item kept when a string); none when the text
/// is no JSON value.
pub uninterp spec fn json_eval_fields(text: Seq<char>) -> Option<(Option<bool>, Option<Seq<char>>, StrItemsV, StrItemsV)>;

pub open spec fn items_view(o: Option<Vec<Option<String>>>) -> StrItemsV {
    match o {
        Some(v) => Some(Seq::new(v@.len(), |i: int| match v@[i] {
            Some(s) => Some(s@),
            None => None,
        })),
        None => None,
    }
}

pub struct EvalFields {
    pub completed: Option<bool>,
    pub reason: Option<String>,
    pub remaining_work: Option<Vec<Option<String>>>,
    pub evidence: Option<Vec<Option<String>>>,
}

/// Parses `text` with `serde_json::from_str::<serde_json::Value>` and reads
/// the evaluator's fields (see `json_eval_fields`). Claimed: the result is
/// `json_eval_fields(text)`.
#[verifier::external_body]
fn eval_fields(text: &str) -> (r: Option<EvalFields>)
    ensures
        match r {
            Some(f) => json_eval_fields(text@) == Some(
                (f.completed, match f.reason {
                    Some(s) => Some(s@),
                    None => None,
                }, items_view(f.remaining_work), items_view(f.evidence)),
            ),
            None => json_eval_fields(text@) is None,
        },
{
    let v: serde_json::Value = serde_json::from_str(text).ok()?;
    let items = |key: &str| v.get(key).and_then(|a| a.as_array()).map(|a| a.iter().map(|x| x.as_str().map(String::from)).collect());
    Some(EvalFields {
        completed: v.get("completed").and_then(|c| c.as_bool()),
        reason: v.get("reason").and_then(|r| r.as_str()).map(String::from),
        remaining_work: items("remaining_work"),
        evidence: items("evidence"),
    })
}

/// The string items, in order.
pub open spec fn strings_of(o: StrItemsV) -> Seq<Seq<char>> {
    match o {
        Some(v) => somes(v),
        None => seq![],
    }
}

pub open spec fn somes(v: Seq<Option<Seq<char>>>) -> Seq<Seq<char>>
    decreases v.len(),
{
    if v.len() == 0 {
        seq![]
    } else {
        match v.last() {
            Some(s) => somes(v.drop_last()).push(s),
            None => somes(v.drop_last()),
        }
    }
}

fn strings_from(o: Option<Vec<Option<String>>>) -> (r: Vec<String>)
    ensures
        strs(r@) == strings_of(items_view(o)),
{
    let mut out: Vec<String> = Vec::new();
    match o {
        Some(v) => {
            let ghost iv = Seq::new(v@.len(), |i: int| match v@[i] {
                Some(s) => Some(s@),
                None => None::<Seq<char>>,
            });
            for k in 0..v.len()
                invariant
                    iv == Seq::new(v@.len(), |i: int| match v@[i] {
                        Some(s) => Some(s@),
                        None => None::<Seq<char>>,
                    }),
                    strs(out@) == somes(iv.take(k as int)),
            {
                assert(iv.take(k + 1).drop_last() =~= iv.take(k as int));
                match &v[k] {
                    Some(s) => {
                        let ghost prev = strs(out@);
                        out.push(s.clone());
                        assert(strs(out@) =~= prev.push(s@));
                    },
                    None => {},
                }
            }
            assert(iv.take(v@.len() as int) =~= iv);
        },
        None => {
            assert(strs(out@) =~= Seq::<Seq<char>>::empty());
        },
    }
    out
}

/// The evaluator's judgment in a reply: the text from its first `{` to its
/// last `}` read as JSON; missing fields default to a strict incomplete.
pub open spec fn evaluation_spec(text: Seq<char>) -> Option<(bool, Seq<char>, Seq<Seq<char>>, Seq<Seq<char>>)> {
    match (crate::text::find_spec(text, seq!['{'], 0), crate::text::rfind_spec(text, seq!['}'], text.len() as int)) {
        (Some(s), Some(e)) => if e <= s {
            None
        } else {
            match json_eval_fields(text.subrange(s, e + 1)) {
                Some(f) => Some(
                    (
                        match f.0 {
                            Some(b) => b,
                            None => false,
                        },
                        match f.1 {
                            Some(r) => r,
                            None => seq![],
                        },
                        strings_of(f.2),
                        strings_of(f.3),
                    ),
                ),
                None => None,
            }
        },
        _ => None,
    }
}

/// Extract a JSON object (tolerating markdown fences and prose) into a
/// `GoalEvaluation`. Missing fields default to a strict incomplete.
pub fn parse_evaluation_json(text: &str) -> (r: Option<GoalEvaluation>)
    ensures
        match evaluation_spec(text@) {
            Some((c, reason, rem, ev)) => r matches Some(g) && g.completed == c && g.reason@ == reason
                && strs(g.remaining_work@) == rem && strs(g.evidence@) == ev,
            None => r is None,
        },
{
    let t = chars_of(text);
    let open: Vec<char> = vec!['{'];
    let close: Vec<char> = vec!['}'];
    assert(open@ =~= seq!['{']);
    assert(close@ =~= seq!['}']);
    let n = t.len();
    proof {
        crate::text::lemma_find_spec(t@, open@, 0);
        crate::text::lemma_rfind_spec(t@, close@, t@.len() as int);
    }
    let start = match crate::text::find_first(&t, &open, 0) {
        Some(s) => s,
        None => return None,
    };
    let end = match crate::text::rfind_chars(&t, &close) {
        Some(e) => e,
        None => return None,
    };
    if end <= start {
        return None;
    }
    let slice = crate::text::slice_chars(&t, start, end + 1);
    let f = match eval_fields(string_of(&slice).as_str()) {
        Some(f) => f,
        None => return None,
    };
    let reason = match f.reason {
        Some(r) => r,
        None => String::new(),
    };
    Some(GoalEvaluation {
        completed: match f.completed {
            Some(b) => b,
            None => false,
        },
        reason,
        remaining_work: strings_from(f.remaining_work),
        evidence: strings_from(f.evidence),
    })
}

} // verus!
