//! What the search and listing tools report, from ripgrep's results or a
//! directory's entries.
use vstd::prelude::*;

use crate::files::strs;
use crate::goal::{int_text, push_i32};
use crate::text::{chars_of, join_chars, join_with, push_str_chars, str_lines, str_lines_of, string_of, trim_chars, trim_spec, view2};
use crate::tools::exec::CmdResult;
use crate::tools::{bound, bound_spec, MAX_GREP_MATCHES};

verus! {

/// The lines kept, each with its newline.
pub open spec fn lined(ls: Seq<Seq<char>>) -> Seq<char>
    decreases ls.len(),
{
    if ls.len() == 0 {
        seq![]
    } else {
        lined(ls.drop_last()) + ls.last().push('\n')
    }
}

/// ripgrep's `path:line:content` rows, the first `MAX_GREP_MATCHES` of
/// them, with a note when that many were reached.
pub open spec fn rg_matches_spec(stdout: Seq<char>) -> Seq<char> {
    let ls = str_lines(stdout);
    if ls.len() >= MAX_GREP_MATCHES {
        bound_spec(lined(ls.take(MAX_GREP_MATCHES as int)) + "[truncated at 200 matches]\n"@)
    } else {
        bound_spec(lined(ls))
    }
}

/// Keep the first `MAX_GREP_MATCHES` `path:line:content` rows from rg.
pub fn format_rg_matches(stdout: &str) -> (r: String)
    ensures
        r@ == rg_matches_spec(stdout@),
{
    let ls = str_lines_of(&chars_of(stdout));
    let ghost lv = view2(ls@);
    let mut out: Vec<char> = Vec::new();
    let mut k: usize = 0;
    while k < ls.len()
        invariant
            lv == view2(ls@),
            lv == str_lines(stdout@),
            k <= ls@.len(),
            k < MAX_GREP_MATCHES,
            out@ == lined(lv.take(k as int)),
        decreases ls.len() - k,
    {
        assert(lv.take(k + 1).drop_last() =~= lv.take(k as int));
        crate::text::extend_chars(&mut out, &ls[k]);
        out.push('\n');
        k += 1;
        if k >= MAX_GREP_MATCHES {
            push_str_chars(&mut out, "[truncated at 200 matches]\n");
            return bound(string_of(&out));
        }
    }
    assert(lv.take(k as int) =~= lv);
    bound(string_of(&out))
}

/// `<what>: rg timed out searching '<pattern>' in <root>`, and the like.
pub open spec fn quoted_in(prefix: Seq<char>, pattern: Seq<char>, root: Seq<char>) -> Seq<char> {
    prefix + pattern + "' in "@ + root
}

/// What `grep` reports from a ripgrep run: the matches (exit 0), that there
/// are none (exit 1), or the failure.
pub open spec fn grep_outcome_spec(pattern: Seq<char>, root: Seq<char>, res: CmdResult) -> Result<Seq<char>, Seq<char>> {
    if res.timed_out {
        Err(quoted_in("grep: rg timed out searching '"@, pattern, root))
    } else {
        match res.code {
            Some(0i32) => Ok(rg_matches_spec(res.stdout@)),
            Some(1i32) => Ok(quoted_in("grep: no matches for '"@, pattern, root)),
            Some(c) => Err("grep: rg failed (exit "@ + int_text(c as int) + "): "@ + trim_spec(res.stderr@)),
            None => Err("grep: rg failed"@),
        }
    }
}

pub open spec fn res_view(r: Result<String, String>) -> Result<Seq<char>, Seq<char>> {
    match r {
        Ok(s) => Ok(s@),
        Err(e) => Err(e@),
    }
}

fn quoted(prefix: &str, pattern: &str, root: &str) -> (r: String)
    ensures
        r@ == quoted_in(prefix@, pattern@, root@),
{
    let mut v = chars_of(prefix);
    push_str_chars(&mut v, pattern);
    push_str_chars(&mut v, "' in ");
    push_str_chars(&mut v, root);
    string_of(&v)
}

fn rg_failed(prefix: &str, c: i32, stderr: &str) -> (r: String)
    ensures
        r@ == prefix@ + int_text(c as int) + "): "@ + trim_spec(stderr@),
{
    let mut v = chars_of(prefix);
    push_i32(&mut v, c);
    push_str_chars(&mut v, "): ");
    crate::text::extend_chars(&mut v, &trim_chars(&chars_of(stderr)));
    string_of(&v)
}

/// The grep tool's result from a ripgrep run.
pub fn grep_outcome(pattern: &str, root: &str, res: CmdResult) -> (r: Result<String, String>)
    ensures
        res_view(r) == grep_outcome_spec(pattern@, root@, res),
{
    if res.timed_out {
        return Err(quoted("grep: rg timed out searching '", pattern, root));
    }
    match res.code {
        Some(0) => Ok(format_rg_matches(res.stdout.as_str())),
        Some(1) => Ok(quoted("grep: no matches for '", pattern, root)),
        Some(c) => Err(rg_failed("grep: rg failed (exit ", c, res.stderr.as_str())),
        None => Err(String::from_str("grep: rg failed")),
    }
}

/// What `glob` reports from `rg --files`: the first `MAX_GREP_MATCHES`
/// paths (with a note when there were more), that none match, or the
/// failure.
pub open spec fn glob_outcome_spec(pattern: Seq<char>, root: Seq<char>, res: CmdResult) -> Result<Seq<char>, Seq<char>> {
    if res.timed_out {
        Err(quoted_in("glob: rg timed out searching '"@, pattern, root))
    } else {
        match res.code {
            Some(0i32) => {
                let ls = str_lines(res.stdout@);
                let kept = if ls.len() > MAX_GREP_MATCHES {
                    ls.take(MAX_GREP_MATCHES as int).push("[truncated at MAX_GREP_MATCHES matches]"@)
                } else {
                    ls
                };
                if kept.len() == 0 {
                    Ok(quoted_in("glob: no files match '"@, pattern, root))
                } else {
                    Ok(bound_spec(join_with(kept, '\n')))
                }
            },
            Some(1i32) => Ok(quoted_in("glob: no files match '"@, pattern, root)),
            Some(c) => Err("glob: rg failed (exit "@ + int_text(c as int) + "): "@ + trim_spec(res.stderr@)),
            None => Err("glob: rg failed"@),
        }
    }
}

/// The glob tool's result from a `rg --files` run.
pub fn glob_outcome(pattern: &str, root: &str, res: CmdResult) -> (r: Result<String, String>)
    ensures
        res_view(r) == glob_outcome_spec(pattern@, root@, res),
{
    if res.timed_out {
        return Err(quoted("glob: rg timed out searching '", pattern, root));
    }
    match res.code {
        Some(0) => {
            let ls = str_lines_of(&chars_of(res.stdout.as_str()));
            let ghost lv = view2(ls@);
            let mut kept: Vec<Vec<char>> = Vec::new();
            let n = if ls.len() < MAX_GREP_MATCHES {
                ls.len()
            } else {
                MAX_GREP_MATCHES
            };
            for k in 0..n
                invariant
                    lv == view2(ls@),
                    n <= ls@.len(),
                    view2(kept@) == lv.take(k as int),
            {
                let ghost prev = view2(kept@);
                let c = crate::text::slice_chars(&ls[k], 0, ls[k].len());
                assert(c@ =~= lv[k as int]);
                kept.push(c);
                assert(view2(kept@) =~= prev.push(lv[k as int]));
                assert(lv.take(k + 1) =~= lv.take(k as int).push(lv[k as int]));
            }
            if ls.len() > MAX_GREP_MATCHES {
                let ghost prev = view2(kept@);
                kept.push(chars_of("[truncated at MAX_GREP_MATCHES matches]"));
                assert(view2(kept@) =~= prev.push("[truncated at MAX_GREP_MATCHES matches]"@));
            } else {
                assert(lv.take(n as int) =~= lv);
            }
            if kept.len() == 0 {
                Ok(quoted("glob: no files match '", pattern, root))
            } else {
                Ok(bound(string_of(&join_chars(&kept, '\n'))))
            }
        },
        Some(1) => Ok(quoted("glob: no files match '", pattern, root)),
        Some(c) => Err(rg_failed("glob: rg failed (exit ", c, res.stderr.as_str())),
        None => Err(String::from_str("glob: rg failed")),
    }
}

/// The listing of a directory: the entry names in order (directories end
/// in `/`), after a count line.
pub open spec fn list_text(path: Seq<char>, names: Seq<Seq<char>>) -> Seq<char> {
    bound_spec(crate::text::decimal(names.len()) + " entries in "@ + path + ":\n"@ + join_with(names, '\n'))
}

/// The list_directory tool's report for the entry names of `path`,
/// sorted.
pub fn list_output(path: &str, names: &Vec<String>) -> (r: String)
    ensures
        exists|sorted: Seq<Seq<char>>|
            crate::files::sorted_paths(sorted) && sorted.to_multiset() == strs(names@).to_multiset() && r@ == list_text(
                path@,
                sorted,
            ),
{
    let sorted = crate::files::sort_paths(names);
    let mut parts: Vec<Vec<char>> = Vec::new();
    for k in 0..sorted.len()
        invariant
            view2(parts@) == strs(sorted@).take(k as int),
    {
        let ghost prev = view2(parts@);
        parts.push(chars_of(sorted[k].as_str()));
        assert(view2(parts@) =~= prev.push(strs(sorted@)[k as int]));
        assert(strs(sorted@).take(k + 1) =~= strs(sorted@).take(k as int).push(strs(sorted@)[k as int]));
    }
    assert(strs(sorted@).take(sorted@.len() as int) =~= strs(sorted@));
    let mut v: Vec<char> = Vec::new();
    crate::text::push_decimal(&mut v, sorted.len());
    push_str_chars(&mut v, " entries in ");
    push_str_chars(&mut v, path);
    push_str_chars(&mut v, ":\n");
    crate::text::extend_chars(&mut v, &join_chars(&parts, '\n'));
    assert(strs(sorted@).len() == sorted@.len());
    bound(string_of(&v))
}

} // verus!
