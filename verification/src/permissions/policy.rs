//! Per-action permission levels and the wildcard ruleset (last match wins).
use vstd::prelude::*;

use super::{action_name, action_name_spec, Action};
use crate::text::{
    chars_of, contains, contains_str, lowercase, lowercase_of, starts_with, starts_with_chars,
    trim_chars, trim_spec,
};

verus! {

/// How a tool action is treated: run it, ask the user, or refuse it.
#[derive(Debug, Clone, Copy, PartialEq, Eq, Structural)]
pub enum Level {
    Allow,
    Ask,
    Deny,
}

impl Default for Level {
    fn default() -> (r: Level)
        ensures
            r == Level::Ask,
    {
        Level::Ask
    }
}

/// One wildcard rule: `{ permission, pattern, action }`. Rules are evaluated
/// in order and the last match wins, mirroring opencode's ruleset.
#[derive(Debug, Clone)]
pub struct Rule {
    /// "read" | "write" | "edit" | "shell" | "*"
    pub permission: String,
    /// Glob matched against the tool target (path, command, url, ...).
    pub pattern: String,
    pub action: Level,
}

/// Per-action permission levels from `[permissions]` config, plus an optional
/// wildcard ruleset. Read actions are always allowed by default.
#[derive(Debug, Clone)]
pub struct Policy {
    pub write: Level,
    pub edit: Level,
    pub shell: Level,
    pub rules: Vec<Rule>,
}

impl Default for Policy {
    fn default() -> (r: Policy)
        ensures
            r.write == Level::Ask,
            r.edit == Level::Ask,
            r.shell == Level::Ask,
            r.rules@.len() == 0,
    {
        Policy { write: Level::Ask, edit: Level::Ask, shell: Level::Ask, rules: Vec::new() }
    }
}

// ---------------------------------------------------------------------------
// Glob matching
// ---------------------------------------------------------------------------
/// Whether glob `p` matches `t`: `*` matches any run within one path segment;
/// `**/` matches zero or more whole leading segments (each with its `/`), a
/// trailing `**` matches the whole rest, and `**` elsewhere matches any run
/// across segments, including none; `?` matches one character other than
/// `/`; any other character matches itself.
pub open spec fn glob(p: Seq<char>, t: Seq<char>) -> bool
    decreases p.len(), t.len(), t.len() + 2,
{
    if p.len() == 0 {
        t.len() == 0
    } else if p[0] == '*' {
        if p.len() >= 2 && p[1] == '*' {
            if p.len() == 2 {
                true
            } else if p[2] == '/' {
                glob(p.skip(3), t) || segments_from(p, t, 0)
            } else {
                any_from(p, t, 0)
            }
        } else {
            star_from(p, t, 0)
        }
    } else if p[0] == '?' {
        t.len() > 0 && t[0] != '/' && glob(p.drop_first(), t.drop_first())
    } else {
        t.len() > 0 && t[0] == p[0] && glob(p.drop_first(), t.drop_first())
    }
}

/// A leading `**/` (heading `p`) consuming the first segment of `t`, which
/// runs from `t[0]` to the first `/` at or after `i` (no `/` lies before `i`),
/// and then matching the rest of `t` again.
pub open spec fn segments_from(p: Seq<char>, t: Seq<char>, i: nat) -> bool
    decreases p.len(), t.len(), t.len() + 1 - i,
{
    if i >= t.len() {
        false
    } else if t[i as int] == '/' {
        glob(p, t.skip(i as int + 1))
    } else {
        segments_from(p, t, i + 1)
    }
}

/// A `**` (heading `p`, not followed by `/`) matching `t[0..k]` for some
/// `k >= skip`, slashes included, and the rest of the pattern `t[k..]`.
pub open spec fn any_from(p: Seq<char>, t: Seq<char>, skip: nat) -> bool
    decreases p.len(), t.len(), t.len() + 1 - skip,
{
    if p.len() < 2 || skip > t.len() {
        false
    } else if glob(p.skip(2), t.skip(skip as int)) {
        true
    } else {
        any_from(p, t, skip + 1)
    }
}

/// A single `*` (heading `p`) matching `t[0..k]` for some `k >= skip` with no
/// `/` in the skipped run, and the rest of the pattern matching `t[k..]`.
pub open spec fn star_from(p: Seq<char>, t: Seq<char>, skip: nat) -> bool
    decreases p.len(), t.len(), t.len() + 1 - skip,
{
    if p.len() == 0 || skip > t.len() {
        false
    } else if skip > 0 && t[skip - 1] == '/' {
        false
    } else if glob(p.drop_first(), t.skip(skip as int)) {
        true
    } else {
        star_from(p, t, skip + 1)
    }
}

fn match_at(p: &Vec<char>, pi: usize, t: &Vec<char>, ti: usize) -> (r: bool)
    requires
        pi <= p@.len(),
        ti <= t@.len(),
    ensures
        r == glob(p@.skip(pi as int), t@.skip(ti as int)),
    decreases p@.len() - pi, t@.len() - ti, t@.len() - ti + 2,
{
    let ghost ps = p@.skip(pi as int);
    let ghost ts = t@.skip(ti as int);
    let pn = p.len();
    let tn = t.len();
    if pi == pn {
        return ti == tn;
    }
    if p[pi] == '*' {
        if pn - pi >= 2 && p[pi + 1] == '*' {
            proof {
                assert(ps[1] == p@[pi + 1]);
            }
            if pn - pi == 2 {
                return true;
            }
            proof {
                assert(ps[2] == p@[pi + 2]);
            }
            if p[pi + 2] == '/' {
                let r = match_at(p, pi + 3, t, ti);
                proof {
                    assert(p@.skip(pi + 3) =~= ps.skip(3));
                }
                if r {
                    return true;
                }
                segment_loop(p, pi, t, ti, 0)
            } else {
                any_loop(p, pi, t, ti, 0)
            }
        } else {
            let r = star_loop(p, pi, t, ti, 0);
            r
        }
    } else if p[pi] == '?' {
        proof {
            assert(p@.skip(pi + 1) =~= ps.drop_first());
        }
        if ti < tn && t[ti] != '/' {
            proof {
                assert(t@.skip(ti + 1) =~= ts.drop_first());
            }
            match_at(p, pi + 1, t, ti + 1)
        } else {
            false
        }
    } else {
        proof {
            assert(p@.skip(pi + 1) =~= ps.drop_first());
        }
        if ti < tn && t[ti] == p[pi] {
            proof {
                assert(t@.skip(ti + 1) =~= ts.drop_first());
            }
            match_at(p, pi + 1, t, ti + 1)
        } else {
            false
        }
    }
}

/// The search for the end of the first segment that a `**/` at `p[pi]`
/// consumes, looking from `t[ti + i]` on.
fn segment_loop(p: &Vec<char>, pi: usize, t: &Vec<char>, ti: usize, i: usize) -> (r: bool)
    requires
        pi < p@.len(),
        ti <= t@.len(),
        i <= t@.len() - ti,
    ensures
        r == segments_from(p@.skip(pi as int), t@.skip(ti as int), i as nat),
    decreases p@.len() - pi, t@.len() - ti, t@.len() - ti + 1 - i,
{
    let ghost ps = p@.skip(pi as int);
    let ghost ts = t@.skip(ti as int);
    let tn = t.len();
    if i >= tn - ti {
        return false;
    }
    proof {
        assert(ts[i as int] == t@[ti + i]);
    }
    if t[ti + i] == '/' {
        proof {
            assert(t@.skip(ti + i + 1) =~= ts.skip(i + 1));
        }
        match_at(p, pi, t, ti + i + 1)
    } else {
        segment_loop(p, pi, t, ti, i + 1)
    }
}

/// The search for the run that a `**` at `p[pi]` (not followed by `/`)
/// takes, trying lengths from `skip` on.
fn any_loop(p: &Vec<char>, pi: usize, t: &Vec<char>, ti: usize, skip: usize) -> (r: bool)
    requires
        pi + 2 <= p@.len(),
        ti <= t@.len(),
        skip <= t@.len() - ti + 1,
    ensures
        r == any_from(p@.skip(pi as int), t@.skip(ti as int), skip as nat),
    decreases p@.len() - pi, t@.len() - ti, t@.len() - ti + 1 - skip,
{
    let ghost ps = p@.skip(pi as int);
    let ghost ts = t@.skip(ti as int);
    let tn = t.len();
    let pn = p.len();
    if skip > tn - ti || pn - pi < 2 {
        return false;
    }
    let m = match_at(p, pi + 2, t, ti + skip);
    proof {
        assert(p@.skip(pi + 2) =~= ps.skip(2));
        assert(t@.skip(ti + skip) =~= ts.skip(skip as int));
    }
    if m {
        return true;
    }
    if skip == tn - ti {
        proof {
            assert(!any_from(ps, ts, (skip + 1) as nat));
        }
        return false;
    }
    any_loop(p, pi, t, ti, skip + 1)
}

/// The search for a single `*` at `p[pi]`, trying skips from `skip` on.
fn star_loop(p: &Vec<char>, pi: usize, t: &Vec<char>, ti: usize, skip: usize) -> (r: bool)
    requires
        pi < p@.len(),
        ti <= t@.len(),
        skip <= t@.len() - ti + 1,
    ensures
        r == star_from(p@.skip(pi as int), t@.skip(ti as int), skip as nat),
    decreases p@.len() - pi, t@.len() - ti, t@.len() - ti + 1 - skip,
{
    let ghost ps = p@.skip(pi as int);
    let ghost ts = t@.skip(ti as int);
    let tn = t.len();
    let pn = p.len();
    if skip > tn - ti {
        return false;
    }
    if skip > 0 && t[ti + skip - 1] == '/' {
        return false;
    }
    let m = match_at(p, pi + 1, t, ti + skip);
    proof {
        assert(p@.skip(pi + 1) =~= ps.drop_first());
        assert(t@.skip(ti + skip) =~= ts.skip(skip as int));
        if skip > 0 {
            assert(ts[skip - 1] == t@[ti + skip - 1]);
        }
    }
    if m {
        return true;
    }
    if skip == tn - ti {
        proof {
            assert(!star_from(ps, ts, (skip + 1) as nat));
        }
        return false;
    }
    star_loop(p, pi, t, ti, skip + 1)
}

/// Simple glob matcher supporting `*` (any run within a segment), `**` (across
/// segments, including zero), and `?` (single char).
pub fn glob_match(pattern: &str, target: &str) -> (r: bool)
    ensures
        r == glob(pattern@, target@),
{
    let p = chars_of(pattern);
    let t = chars_of(target);
    let r = match_at(&p, 0, &t, 0);
    proof {
        assert(p@.skip(0) =~= p@);
        assert(t@.skip(0) =~= t@);
    }
    r
}

// ---------------------------------------------------------------------------
// Levels
// ---------------------------------------------------------------------------
impl Rule {
    /// Whether this rule applies to `action` on `target`.
    pub open spec fn applies(self, action: Action, target: Seq<char>) -> bool {
        (self.permission@ == "*"@ || self.permission@ == action_name_spec(action)) && glob(
            self.pattern@,
            target,
        )
    }
}

impl Policy {
    /// The configured level of an action, before rules.
    pub open spec fn base_level(self, action: Action) -> Level {
        match action {
            Action::Read => Level::Allow,
            Action::Write => self.write,
            Action::Edit => self.edit,
            Action::Shell => self.shell,
        }
    }

    /// The level from the last of `rules[0..n]` that applies, else the base level.
    pub open spec fn level_among(self, action: Action, target: Seq<char>, n: int) -> Level
        decreases n,
    {
        if n <= 0 {
            self.base_level(action)
        } else if self.rules@[n - 1].applies(action, target) {
            self.rules@[n - 1].action
        } else {
            self.level_among(action, target, n - 1)
        }
    }

    pub open spec fn level_spec(self, action: Action, target: Seq<char>) -> Level {
        self.level_among(action, target, self.rules@.len() as int)
    }

    pub fn level_for(&self, action: Action) -> (r: Level)
        ensures
            r == self.base_level(action),
    {
        match action {
            Action::Read => Level::Allow,
            Action::Write => self.write,
            Action::Edit => self.edit,
            Action::Shell => self.shell,
        }
    }

    /// Resolve the effective level for an action applied to a target, honoring
    /// the wildcard ruleset (last match wins).
    pub fn level_for_target(&self, action: Action, target: &str) -> (r: Level)
        ensures
            r == self.level_spec(action, target@),
    {
        let name = chars_of(action_name(action));
        let mut i = self.rules.len();
        while i > 0
            invariant
                i <= self.rules@.len(),
                name@ == action_name_spec(action),
                self.level_spec(action, target@) == self.level_among(action, target@, i as int),
            decreases i,
        {
            let rule = &self.rules[i - 1];
            let perm = chars_of(rule.permission.as_str());
            let star = crate::text::eq_str(&perm, "*");
            let same = crate::text::chars_eq(&perm, &name);
            if (star || same) && glob_match(rule.pattern.as_str(), target) {
                return rule.action;
            }
            i -= 1;
        }
        self.level_for(action)
    }
}

/// Read actions are always allowed, whatever the policy says of the others.
pub proof fn law_read_always_allowed(p: Policy)
    ensures
        p.base_level(Action::Read) == Level::Allow,
{
}

/// The last applicable rule decides; earlier rules are shadowed by it.
pub proof fn law_last_match_wins(p: Policy, action: Action, target: Seq<char>, i: int)
    requires
        0 <= i < p.rules@.len(),
        p.rules@[i].applies(action, target),
        forall|j: int| i < j < p.rules@.len() ==> !p.rules@[j].applies(action, target),
    ensures
        p.level_spec(action, target) == p.rules@[i].action,
    decreases p.rules@.len() - i,
{
    lemma_level_among_skip(p, action, target, i, p.rules@.len() as int);
}

proof fn lemma_level_among_skip(p: Policy, action: Action, target: Seq<char>, i: int, n: int)
    requires
        0 <= i < n <= p.rules@.len(),
        p.rules@[i].applies(action, target),
        forall|j: int| i < j < p.rules@.len() ==> !p.rules@[j].applies(action, target),
    ensures
        p.level_among(action, target, n) == p.rules@[i].action,
    decreases n,
{
    if n - 1 > i {
        lemma_level_among_skip(p, action, target, i, n - 1);
    }
}

/// With no applicable rule the configured level stands.
pub proof fn law_no_match_keeps_base(p: Policy, action: Action, target: Seq<char>)
    requires
        forall|j: int| 0 <= j < p.rules@.len() ==> !p.rules@[j].applies(action, target),
    ensures
        p.level_spec(action, target) == p.base_level(action),
{
    lemma_level_among_none(p, action, target, p.rules@.len() as int);
}

proof fn lemma_level_among_none(p: Policy, action: Action, target: Seq<char>, n: int)
    requires
        0 <= n <= p.rules@.len(),
        forall|j: int| 0 <= j < p.rules@.len() ==> !p.rules@[j].applies(action, target),
    ensures
        p.level_among(action, target, n) == p.base_level(action),
    decreases n,
{
    if n > 0 {
        lemma_level_among_none(p, action, target, n - 1);
    }
}

/// A rule names the action it governs: when every rule names another action
/// (neither `*` nor this action's name), the configured level of the action
/// stands, whatever the target and the rules' patterns.
pub proof fn law_rules_for_other_actions_ignored(p: Policy, action: Action, target: Seq<char>)
    requires
        forall|j: int|
            0 <= j < p.rules@.len() ==> (#[trigger] p.rules@[j]).permission@ != "*"@ && p.rules@[j].permission@
                != action_name_spec(action),
    ensures
        p.level_spec(action, target) == p.base_level(action),
{
    lemma_level_among_none(p, action, target, p.rules@.len() as int);
}

/// Rules written for one action leave every other action alone: when each
/// rule names action `b`, the level of another action `a` is its configured
/// level, whatever the target and the patterns.
pub proof fn law_rule_for_one_action_leaves_others(p: Policy, a: Action, b: Action, target: Seq<char>)
    requires
        a != b,
        forall|j: int| 0 <= j < p.rules@.len() ==> (#[trigger] p.rules@[j]).permission@ == action_name_spec(b),
    ensures
        p.level_spec(a, target) == p.base_level(a),
{
    super::law_action_name_roundtrip(a);
    super::law_action_name_roundtrip(b);
    reveal_strlit("*");
    reveal_strlit("read");
    reveal_strlit("write");
    reveal_strlit("edit");
    reveal_strlit("shell");
    assert(action_name_spec(b) != "*"@) by {
        assert("*"@.len() == 1);
        assert(action_name_spec(b).len() >= 4);
    }
    assert(action_name_spec(a) != action_name_spec(b));
    law_rules_for_other_actions_ignored(p, a, target);
}

/// A rule whose pattern does not match the target never decides: when no
/// rule's glob matches, the configured level stands.
pub proof fn law_unmatched_patterns_ignored(p: Policy, action: Action, target: Seq<char>)
    requires
        forall|j: int| 0 <= j < p.rules@.len() ==> !glob(#[trigger] p.rules@[j].pattern@, target),
    ensures
        p.level_spec(action, target) == p.base_level(action),
{
    lemma_level_among_none(p, action, target, p.rules@.len() as int);
}

/// A rule for this action (or for `*`) whose pattern matches, with no later
/// rule for the action matching, gives the level.
pub proof fn law_last_rule_for_action_decides(p: Policy, action: Action, target: Seq<char>, i: int)
    requires
        0 <= i < p.rules@.len(),
        p.rules@[i].permission@ == "*"@ || p.rules@[i].permission@ == action_name_spec(action),
        glob(p.rules@[i].pattern@, target),
        forall|j: int|
            i < j < p.rules@.len() ==> !glob(#[trigger] p.rules@[j].pattern@, target) || (p.rules@[j].permission@
                != "*"@ && p.rules@[j].permission@ != action_name_spec(action)),
    ensures
        p.level_spec(action, target) == p.rules@[i].action,
{
    lemma_level_among_skip(p, action, target, i, p.rules@.len() as int);
}

// ---------------------------------------------------------------------------
// Dangerous commands
// ---------------------------------------------------------------------------
/// Commands that always need an explicit prompt, judged on the trimmed,
/// lower-cased command `c`.
pub open spec fn dangerous(c: Seq<char>) -> bool {
    starts_with(c, "sudo"@) || starts_with(c, "mkfs"@) || starts_with(c, "dd"@) || starts_with(
        c,
        "shutdown"@,
    ) || starts_with(c, "reboot"@) || starts_with(c, "poweroff"@) || contains(c, "rm -rf"@)
        || contains(c, "rm -r -f"@) || (contains(c, "git push"@) && contains(c, "--force"@)) || ((
    contains(c, "curl"@) || contains(c, "wget"@)) && (contains(c, "| sh"@) || contains(
        c,
        "| bash"@,
    ))) || (contains(c, "chmod"@) && contains(c, "777"@) && contains(c, " /"@))
}

/// A command that, trimmed and lower-cased, starts with `sudo`, `mkfs`,
/// `dd`, `shutdown`, `reboot` or `poweroff`, removes recursively by force,
/// force-pushes, pipes a download into a shell, or opens permissions to 777
/// on a path from the root, is dangerous.
pub proof fn law_destructive_commands_dangerous(command: Seq<char>)
    requires
        ({
            let c = lowercase_of(trim_spec(command));
            ||| starts_with(c, "sudo"@)
            ||| starts_with(c, "mkfs"@)
            ||| starts_with(c, "dd"@)
            ||| starts_with(c, "shutdown"@)
            ||| starts_with(c, "reboot"@)
            ||| starts_with(c, "poweroff"@)
            ||| contains(c, "rm -rf"@)
            ||| contains(c, "rm -r -f"@)
            ||| contains(c, "git push"@) && contains(c, "--force"@)
            ||| contains(c, "curl"@) && contains(c, "| sh"@)
            ||| contains(c, "curl"@) && contains(c, "| bash"@)
            ||| contains(c, "wget"@) && contains(c, "| sh"@)
            ||| contains(c, "wget"@) && contains(c, "| bash"@)
            ||| contains(c, "chmod"@) && contains(c, "777"@) && contains(c, " /"@)
        }),
    ensures
        dangerous(lowercase_of(trim_spec(command))),
{
}

/// Only those commands are dangerous: one that, trimmed and lower-cased,
/// starts with none of the destructive words and holds none of the
/// destructive fragments is not.
pub proof fn law_other_commands_not_dangerous(command: Seq<char>)
    requires
        ({
            let c = lowercase_of(trim_spec(command));
            &&& !starts_with(c, "sudo"@)
            &&& !starts_with(c, "mkfs"@)
            &&& !starts_with(c, "dd"@)
            &&& !starts_with(c, "shutdown"@)
            &&& !starts_with(c, "reboot"@)
            &&& !starts_with(c, "poweroff"@)
            &&& !contains(c, "rm -rf"@)
            &&& !contains(c, "rm -r -f"@)
            &&& !(contains(c, "git push"@) && contains(c, "--force"@))
            &&& !(contains(c, "curl"@) && contains(c, "| sh"@))
            &&& !(contains(c, "curl"@) && contains(c, "| bash"@))
            &&& !(contains(c, "wget"@) && contains(c, "| sh"@))
            &&& !(contains(c, "wget"@) && contains(c, "| bash"@))
            &&& !(contains(c, "chmod"@) && contains(c, "777"@) && contains(c, " /"@))
        }),
    ensures
        !dangerous(lowercase_of(trim_spec(command))),
{
}

fn starts_with_str(s: &[char], p: &str) -> (r: bool)
    ensures
        r == starts_with(s@, p@),
{
    let pv = chars_of(p);
    starts_with_chars(s, &pv)
}

/// Best-effort detection of destructive/high-impact shell commands.
/// These always require an explicit prompt even if the policy allows shell.
pub fn is_dangerous_command(command: &str) -> (r: bool)
    ensures
        r == dangerous(lowercase_of(trim_spec(command@))),
{
    let raw = chars_of(command);
    let t = trim_chars(&raw);
    let c = lowercase(&t);
    if starts_with_str(&c, "sudo") || starts_with_str(&c, "mkfs") || starts_with_str(&c, "dd")
        || starts_with_str(&c, "shutdown") || starts_with_str(&c, "reboot") || starts_with_str(
        &c,
        "poweroff",
    ) {
        return true;
    }
    if contains_str(&c, "rm -rf") || contains_str(&c, "rm -r -f") {
        return true;
    }
    if contains_str(&c, "git push") && contains_str(&c, "--force") {
        return true;
    }
    if (contains_str(&c, "curl") || contains_str(&c, "wget")) && (contains_str(&c, "| sh")
        || contains_str(&c, "| bash")) {
        return true;
    }
    if contains_str(&c, "chmod") && contains_str(&c, "777") && contains_str(&c, " /") {
        return true;
    }
    false
}

} // verus!
