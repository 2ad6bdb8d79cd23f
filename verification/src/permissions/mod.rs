//! Tool actions subject to the permission policy, and the policy itself.
pub mod policy;

use vstd::prelude::*;

use crate::providers::{arg_str, arg_string, ToolCall};
use crate::text::{chars_of, eq_str, push_str_chars, string_of};

verus! {

/// Categories of tool actions subject to the permission policy.
#[derive(Debug, Clone, Copy, PartialEq, Eq, Structural, Hash)]
pub enum Action {
    Read,
    Write,
    Edit,
    Shell,
}

/// How the user answered a permission prompt.
#[derive(Debug)]
pub enum Choice {
    Allow,
    /// Deny, optionally with a message fed back to the model.
    Deny { feedback: Option<String> },
    AllowForSession,
    /// Allow and remember this action across restarts (persisted per session).
    Always,
}

/// The action a tool maps to: writes, edits (including patches) and shell
/// commands need permission; every other tool reads.
pub open spec fn action_for_spec(tool: Seq<char>) -> Action {
    if tool == "write_file"@ {
        Action::Write
    } else if tool == "edit_file"@ || tool == "apply_patch"@ {
        Action::Edit
    } else if tool == "shell"@ {
        Action::Shell
    } else {
        Action::Read
    }
}

/// The name of an action as written in configuration.
pub open spec fn action_name_spec(a: Action) -> Seq<char> {
    match a {
        Action::Read => "read"@,
        Action::Write => "write"@,
        Action::Edit => "edit"@,
        Action::Shell => "shell"@,
    }
}

/// Which action a tool name maps to. Read-only tools (including git reads) are automatic.
pub fn action_for(tool_name: &str) -> (r: Action)
    ensures
        r == action_for_spec(tool_name@),
{
    let t = crate::text::chars_of(tool_name);
    if eq_str(&t, "write_file") {
        Action::Write
    } else if eq_str(&t, "edit_file") || eq_str(&t, "apply_patch") {
        Action::Edit
    } else if eq_str(&t, "shell") {
        Action::Shell
    } else {
        Action::Read
    }
}

pub fn action_name(a: Action) -> (r: &'static str)
    ensures
        r@ == action_name_spec(a),
{
    match a {
        Action::Read => "read",
        Action::Write => "write",
        Action::Edit => "edit",
        Action::Shell => "shell",
    }
}

pub fn action_from_name(name: &str) -> (r: Option<Action>)
    ensures
        r == (if name@ == "read"@ {
            Some(Action::Read)
        } else if name@ == "write"@ {
            Some(Action::Write)
        } else if name@ == "edit"@ {
            Some(Action::Edit)
        } else if name@ == "shell"@ {
            Some(Action::Shell)
        } else {
            None
        }),
{
    let t = crate::text::chars_of(name);
    if eq_str(&t, "read") {
        Some(Action::Read)
    } else if eq_str(&t, "write") {
        Some(Action::Write)
    } else if eq_str(&t, "edit") {
        Some(Action::Edit)
    } else if eq_str(&t, "shell") {
        Some(Action::Shell)
    } else {
        None
    }
}

/// Naming an action and reading the name back gives the action.
pub proof fn law_action_name_roundtrip(a: Action)
    ensures
        (if action_name_spec(a) == "read"@ {
            Some(Action::Read)
        } else if action_name_spec(a) == "write"@ {
            Some(Action::Write)
        } else if action_name_spec(a) == "edit"@ {
            Some(Action::Edit)
        } else if action_name_spec(a) == "shell"@ {
            Some(Action::Shell)
        } else {
            None
        }) == Some(a),
{
    reveal_strlit("read");
    reveal_strlit("write");
    reveal_strlit("edit");
    reveal_strlit("shell");
    assert("read"@[0] == 'r' && "write"@[0] == 'w' && "edit"@[0] == 'e' && "shell"@[0] == 's');
    assert("read"@ != "write"@);
    assert("read"@ != "edit"@);
    assert("read"@ != "shell"@);
    assert("write"@ != "edit"@);
    assert("write"@ != "shell"@);
    assert("edit"@ != "shell"@);
}

/// The value of the first of `keys` that the arguments hold as a string;
/// empty when none does.
pub open spec fn pick(args: Seq<char>, keys: Seq<Seq<char>>) -> Seq<char>
    decreases keys.len(),
{
    if keys.len() == 0 {
        seq![]
    } else {
        match arg_str(args, keys[0]) {
            Some(v) => v,
            None => pick(args, keys.drop_first()),
        }
    }
}

fn pick_one(args: &str, key: &str) -> (r: Vec<char>)
    ensures
        r@ == pick(args@, seq![key@]),
{
    proof {
        reveal_with_fuel(pick, 2);
        assert(seq![key@].drop_first() =~= Seq::<Seq<char>>::empty());
        assert(seq![key@][0] == key@);
    }
    match arg_string(args, key) {
        Some(v) => chars_of(v.as_str()),
        None => Vec::new(),
    }
}

/// The target a permission rule matches for a tool call.
pub open spec fn policy_target(name: Seq<char>, args: Seq<char>) -> Seq<char> {
    if name == "shell"@ {
        pick(args, seq!["command"@])
    } else if name == "read_file"@ || name == "write_file"@ || name == "edit_file"@ || name == "list_directory"@
        || name == "glob"@ {
        pick(args, seq!["path"@])
    } else if name == "grep"@ {
        pick(args, seq!["pattern"@])
    } else if name == "web_fetch"@ {
        pick(args, seq!["url"@])
    } else if name == "web_search"@ {
        pick(args, seq!["query"@])
    } else if name == "apply_patch"@ {
        "patch"@
    } else {
        seq![]
    }
}

/// A stable, human-readable target for permission rule matching.
pub fn tool_target_for_policy(tc: &ToolCall) -> (r: String)
    ensures
        r@ == policy_target(tc.name@, tc.arguments@),
{
    let n = chars_of(tc.name.as_str());
    let a = tc.arguments.as_str();
    if eq_str(&n, "shell") {
        string_of(&pick_one(a, "command"))
    } else if eq_str(&n, "read_file") || eq_str(&n, "write_file") || eq_str(&n, "edit_file") || eq_str(
        &n,
        "list_directory",
    ) || eq_str(&n, "glob") {
        string_of(&pick_one(a, "path"))
    } else if eq_str(&n, "grep") {
        string_of(&pick_one(a, "pattern"))
    } else if eq_str(&n, "web_fetch") {
        string_of(&pick_one(a, "url"))
    } else if eq_str(&n, "web_search") {
        string_of(&pick_one(a, "query"))
    } else if eq_str(&n, "apply_patch") {
        String::from_str("patch")
    } else {
        String::new()
    }
}

/// The text shown in a permission prompt for a tool call; shell commands
/// start with `$ `.
pub open spec fn describe_spec(name: Seq<char>, args: Seq<char>) -> Seq<char> {
    if name == "shell"@ {
        "$ "@ + pick(args, seq!["command"@])
    } else if name == "write_file"@ {
        "Write file: "@ + pick(args, seq!["path"@])
    } else if name == "edit_file"@ {
        "Edit file: "@ + pick(args, seq!["path"@])
    } else if name == "apply_patch"@ {
        "Apply patch to: "@ + pick(args, seq!["path"@])
    } else if name == "read_file"@ {
        "Read file: "@ + pick(args, seq!["path"@])
    } else if name == "list_directory"@ {
        "List directory: "@ + pick(args, seq!["path"@])
    } else if name == "glob"@ {
        "Glob: "@ + pick(args, seq!["pattern"@])
    } else if name == "grep"@ {
        "Search: "@ + pick(args, seq!["pattern"@])
    } else if name == "web_fetch"@ {
        "Fetch: "@ + pick(args, seq!["url"@])
    } else if name == "web_search"@ {
        "Search web: "@ + pick(args, seq!["query"@])
    } else {
        "Call "@ + name + "("@ + pick(args, seq!["path"@, "target"@, "name"@]) + ")"@
    }
}

fn labelled(label: &str, v: Vec<char>) -> (r: String)
    ensures
        r@ == label@ + v@,
{
    let mut out = chars_of(label);
    crate::text::extend_chars(&mut out, &v);
    string_of(&out)
}

/// Human-readable description used in the permission prompt.
pub fn describe_tool(tc: &ToolCall) -> (r: String)
    ensures
        r@ == describe_spec(tc.name@, tc.arguments@),
{
    let n = chars_of(tc.name.as_str());
    let a = tc.arguments.as_str();
    if eq_str(&n, "shell") {
        labelled("$ ", pick_one(a, "command"))
    } else if eq_str(&n, "write_file") {
        labelled("Write file: ", pick_one(a, "path"))
    } else if eq_str(&n, "edit_file") {
        labelled("Edit file: ", pick_one(a, "path"))
    } else if eq_str(&n, "apply_patch") {
        labelled("Apply patch to: ", pick_one(a, "path"))
    } else if eq_str(&n, "read_file") {
        labelled("Read file: ", pick_one(a, "path"))
    } else if eq_str(&n, "list_directory") {
        labelled("List directory: ", pick_one(a, "path"))
    } else if eq_str(&n, "glob") {
        labelled("Glob: ", pick_one(a, "pattern"))
    } else if eq_str(&n, "grep") {
        labelled("Search: ", pick_one(a, "pattern"))
    } else if eq_str(&n, "web_fetch") {
        labelled("Fetch: ", pick_one(a, "url"))
    } else if eq_str(&n, "web_search") {
        labelled("Search web: ", pick_one(a, "query"))
    } else {
        let ghost keys = seq!["path"@, "target"@, "name"@];
        let v = match arg_string(a, "path") {
            Some(v) => chars_of(v.as_str()),
            None => match arg_string(a, "target") {
                Some(v) => chars_of(v.as_str()),
                None => match arg_string(a, "name") {
                    Some(v) => chars_of(v.as_str()),
                    None => Vec::new(),
                },
            },
        };
        proof {
            reveal_with_fuel(pick, 4);
            assert(keys.drop_first() =~= seq!["target"@, "name"@]);
            assert(keys.drop_first().drop_first() =~= seq!["name"@]);
            assert(keys.drop_first().drop_first().drop_first() =~= Seq::<Seq<char>>::empty());
        }
        let mut out = chars_of("Call ");
        push_str_chars(&mut out, tc.name.as_str());
        push_str_chars(&mut out, "(");
        crate::text::extend_chars(&mut out, &v);
        push_str_chars(&mut out, ")");
        string_of(&out)
    }
}

/// The choice typed at a terminal permission prompt (trimmed, any case);
/// none for an answer it does not know, which is asked again.
pub open spec fn typed_choice(line: Seq<char>) -> Option<Choice> {
    let a = crate::text::lowercase_of(crate::text::trim_spec(line));
    if a == "y"@ || a == "yes"@ || a == "allow"@ {
        Some(Choice::Allow)
    } else if a == "s"@ || a == "session"@ {
        Some(Choice::AllowForSession)
    } else if a == "w"@ || a == "always"@ {
        Some(Choice::Always)
    } else if a.len() == 0 || a == "n"@ || a == "no"@ || a == "deny"@ {
        Some(Choice::Deny { feedback: None })
    } else {
        None
    }
}

/// Read an answer typed at a terminal permission prompt.
pub fn parse_choice(line: &str) -> (r: Option<Choice>)
    ensures
        r == typed_choice(line@),
{
    let a = crate::text::lowercase(&crate::text::trim_chars(&chars_of(line)));
    if eq_str(&a, "y") || eq_str(&a, "yes") || eq_str(&a, "allow") {
        Some(Choice::Allow)
    } else if eq_str(&a, "s") || eq_str(&a, "session") {
        Some(Choice::AllowForSession)
    } else if eq_str(&a, "w") || eq_str(&a, "always") {
        Some(Choice::Always)
    } else if a.len() == 0 || eq_str(&a, "n") || eq_str(&a, "no") || eq_str(&a, "deny") {
        Some(Choice::Deny { feedback: None })
    } else {
        None
    }
}

} // verus!
