//! The git tools: the command lines they run and how a run is reported.
use vstd::prelude::*;

use crate::text::{push_str_chars, string_of, trim_chars, trim_spec, decimal};
use crate::tools::exec::CmdResult;
use crate::goal::{int_text, push_i32, strs};

verus! {

/// Show the working-tree diff.
pub struct GitDiff;

/// Show working-tree status in short format.
pub struct GitStatus;

/// Show recent commit history.
pub struct GitLog;

impl GitDiff {
    /// `diff`, limited to a path when one is given.
    pub fn args(path: Option<&str>) -> (r: Vec<String>)
        ensures
            strs(r@) == match path {
                Some(p) => seq!["diff"@, "--"@, p@],
                None => seq!["diff"@],
            },
    {
        let mut v: Vec<String> = Vec::new();
        v.push(String::from_str("diff"));
        match path {
            Some(p) => {
                v.push(String::from_str("--"));
                v.push(String::from_str(p));
            },
            None => {},
        }
        assert(strs(v@) =~= match path {
            Some(p) => seq!["diff"@, "--"@, p@],
            None => seq!["diff"@],
        });
        v
    }
}

impl GitStatus {
    pub fn args() -> (r: Vec<String>)
        ensures
            strs(r@) == seq!["status"@, "--short"@],
    {
        let mut v: Vec<String> = Vec::new();
        v.push(String::from_str("status"));
        v.push(String::from_str("--short"));
        assert(strs(v@) =~= seq!["status"@, "--short"@]);
        v
    }
}

impl GitLog {
    /// `log --oneline -n <n>`, ten commits by default.
    pub fn args(n: Option<u64>) -> (r: Vec<String>)
        ensures
            strs(r@) == seq!["log"@, "--oneline"@, "-n"@, decimal(match n {
                Some(k) => k as nat,
                None => 10,
            })],
    {
        let k: u64 = match n {
            Some(k) => k,
            None => 10,
        };
        let mut d: Vec<char> = Vec::new();
        crate::text::push_u64(&mut d, k);
        let mut v: Vec<String> = Vec::new();
        v.push(String::from_str("log"));
        v.push(String::from_str("--oneline"));
        v.push(String::from_str("-n"));
        v.push(string_of(&d));
        assert(strs(v@) =~= seq!["log"@, "--oneline"@, "-n"@, decimal(k as nat)]);
        v
    }
}

/// `args` joined with single spaces.
pub open spec fn spaced(args: Seq<Seq<char>>) -> Seq<char> {
    crate::web::join_seqs(args, seq![' '])
}

/// How a git run is reported: a timeout, a non-zero exit (with the trimmed
/// error output, or the exit code when there is none), or the output.
pub open spec fn git_outcome_spec(args: Seq<Seq<char>>, res: CmdResult) -> Result<Seq<char>, Seq<char>> {
    if res.timed_out {
        Err("git command timed out"@)
    } else if res.code != Some(0i32) {
        let detail = if trim_spec(res.stderr@).len() == 0 {
            "exit code "@ + int_text(
                match res.code {
                    Some(c) => c as int,
                    None => -1,
                },
            )
        } else {
            trim_spec(res.stderr@)
        };
        Err("git "@ + spaced(args) + " failed: "@ + detail)
    } else {
        Ok(crate::tools::bound_spec(res.stdout@))
    }
}

/// The result of a git run with arguments `args`.
pub fn git_outcome(args: &Vec<String>, res: CmdResult) -> (r: Result<String, String>)
    ensures
        match git_outcome_spec(strs(args@), res) {
            Ok(t) => r matches Ok(m) && m@ == t,
            Err(t) => r matches Err(m) && m@ == t,
        },
{
    if res.timed_out {
        return Err(String::from_str("git command timed out"));
    }
    let failed = match res.code {
        Some(c) => c != 0,
        None => true,
    };
    if failed {
        let err = trim_chars(&crate::text::chars_of(res.stderr.as_str()));
        let mut detail: Vec<char> = Vec::new();
        if err.len() == 0 {
            push_str_chars(&mut detail, "exit code ");
            let code = match res.code {
                Some(c) => c,
                None => -1,
            };
            push_i32(&mut detail, code);
        } else {
            crate::text::extend_chars(&mut detail, &err);
        }
        let mut m: Vec<char> = Vec::new();
        push_str_chars(&mut m, "git ");
        let ghost av = strs(args@);
        for k in 0..args.len()
            invariant
                av == strs(args@),
                m@ == "git "@ + spaced(av.take(k as int)),
        {
            if k > 0 {
                m.push(' ');
            }
            push_str_chars(&mut m, args[k].as_str());
            assert(av.take(k + 1).drop_last() =~= av.take(k as int));
            proof {
                if k == 0 {
                    assert(m@ =~= "git "@ + spaced(av.take(k + 1)));
                } else {
                    assert(m@ =~= "git "@ + spaced(av.take(k + 1)));
                }
            }
        }
        assert(av.take(args@.len() as int) =~= av);
        push_str_chars(&mut m, " failed: ");
        crate::text::extend_chars(&mut m, &detail);
        return Err(string_of(&m));
    }
    Ok(crate::tools::bound(res.stdout))
}

} // verus!
