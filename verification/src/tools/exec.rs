//! Results of child processes run by the tools.
use vstd::prelude::*;

use crate::text::{decimal, push_str_chars, string_of};
use crate::goal::{int_text, push_i32};

verus! {

/// Cap on bytes kept from a child process's stdout/stderr; anything beyond is drained and dropped.
pub const OUTPUT_LIMIT: usize = 64 * 1024;

/// What a child process produced.
pub struct CmdResult {
    pub stdout: String,
    pub stderr: String,
    pub code: Option<i32>,
    pub timed_out: bool,
}

/// The shell tool's report of a finished command: the command, its output
/// streams that are not empty, and how it ended.
pub open spec fn shell_report_spec(command: Seq<char>, res: CmdResult) -> Seq<char> {
    "$ "@ + command + seq!['\n'] + (if res.stdout@.len() > 0 {
        "--- stdout ---\n"@ + res.stdout@ + seq!['\n']
    } else {
        Seq::<char>::empty()
    }) + (if res.stderr@.len() > 0 {
        "--- stderr ---\n"@ + res.stderr@ + seq!['\n']
    } else {
        Seq::<char>::empty()
    }) + if res.timed_out {
        "(timed out and killed)\n"@
    } else {
        "exit code: "@ + int_text(
            match res.code {
                Some(c) => c as int,
                None => -1,
            },
        ) + seq!['\n']
    }
}

/// The shell tool's report (before bounding).
pub fn shell_report(command: &str, res: &CmdResult) -> (r: String)
    ensures
        r@ == shell_report_spec(command@, *res),
{
    let mut out: Vec<char> = Vec::new();
    push_str_chars(&mut out, "$ ");
    push_str_chars(&mut out, command);
    out.push('\n');
    let ghost a = out@;
    proof {
        crate::text::lemma_byte_len_zero(res.stdout@);
        crate::text::lemma_byte_len_zero(res.stderr@);
    }
    if crate::text::str_byte_len(res.stdout.as_str()) > 0 {
        push_str_chars(&mut out, "--- stdout ---\n");
        push_str_chars(&mut out, res.stdout.as_str());
        out.push('\n');
    }
    let ghost b = out@;
    if crate::text::str_byte_len(res.stderr.as_str()) > 0 {
        push_str_chars(&mut out, "--- stderr ---\n");
        push_str_chars(&mut out, res.stderr.as_str());
        out.push('\n');
    }
    let ghost c = out@;
    if res.timed_out {
        push_str_chars(&mut out, "(timed out and killed)\n");
    } else {
        push_str_chars(&mut out, "exit code: ");
        let code = match res.code {
            Some(c) => c,
            None => -1,
        };
        push_i32(&mut out, code);
        out.push('\n');
    }
    assert(out@ =~= shell_report_spec(command@, *res));
    string_of(&out)
}

} // verus!
