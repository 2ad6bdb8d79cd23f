//! The agent's tools: the parts of them that compute, apart from the file
//! system and processes they drive.
pub mod edit;
pub mod exec;
pub mod git;
pub mod patch;
pub mod read;
pub mod search;

use vstd::prelude::*;

use crate::text::{byte_len, chars_of, decimal, push_decimal, push_str_chars, slice_chars, string_of, utf8_len};

verus! {

/// Bound tool output so a huge file/result never floods the LLM context.
pub const MAX_TOOL_OUTPUT: usize = 32 * 1024;
pub const MAX_GREP_MATCHES: usize = 200;
/// Files larger than this are not read/grep'd in full.
pub const MAX_FILE_BYTES: u64 = 10 * 1024 * 1024;

/// Number of leading characters of `s` that fit in `limit` bytes.
pub open spec fn fit_chars(s: Seq<char>, limit: int) -> nat
    decreases s.len(),
{
    if s.len() == 0 || utf8_len(s[0]) > limit {
        0
    } else {
        1 + fit_chars(s.drop_first(), limit - utf8_len(s[0]))
    }
}

/// Output within `MAX_TOOL_OUTPUT` bytes is kept whole; longer output is cut
/// at the last character boundary within the limit and followed by a note
/// of how much was kept.
pub open spec fn bound_spec(s: Seq<char>) -> Seq<char> {
    if byte_len(s) <= MAX_TOOL_OUTPUT {
        s
    } else {
        let kept = s.take(fit_chars(s, MAX_TOOL_OUTPUT as int) as int);
        kept + "\n\n[truncated: "@ + decimal(byte_len(kept)) + " of "@ + decimal(byte_len(s))
            + " bytes]"@
    }
}

proof fn lemma_fit_step(s: Seq<char>, k: int, limit: int)
    requires
        0 <= k <= s.len(),
        byte_len(s.take(k)) <= limit,
    ensures
        fit_chars(s, limit) == k + fit_chars(s.skip(k), limit - byte_len(s.take(k))),
    decreases k,
{
    if k > 0 {
        let t = s.drop_first();
        assert(s.take(k) =~= seq![s[0]] + t.take(k - 1));
        crate::text::lemma_byte_len_concat(seq![s[0]], t.take(k - 1));
        assert(seq![s[0]].drop_last() =~= Seq::<char>::empty());
        assert(seq![s[0]].last() == s[0]);
        assert(byte_len(Seq::<char>::empty()) == 0);
        assert(byte_len(seq![s[0]]) == byte_len(seq![s[0]].drop_last()) + utf8_len(seq![s[0]].last()));
        lemma_fit_step(t, k - 1, limit - utf8_len(s[0]));
        assert(t.skip(k - 1) =~= s.skip(k));
    } else {
        assert(s.skip(0) =~= s);
    }
}

/// Truncate output at a UTF-8 boundary, noting the full size.
pub fn bound(s: String) -> (r: String)
    ensures
        r@ == bound_spec(s@),
{
    let total = crate::text::str_byte_len(s.as_str());
    if total <= MAX_TOOL_OUTPUT {
        return s;
    }
    let v = chars_of(s.as_str());
    let mut k: usize = 0;
    let mut used: usize = 0;
    assert(v@.take(0) =~= Seq::<char>::empty());
    while k < v.len() && used + crate::text::char_utf8_len(v[k]) <= MAX_TOOL_OUTPUT
        invariant
            k <= v@.len(),
            v@ == s@,
            used == byte_len(v@.take(k as int)),
            used <= MAX_TOOL_OUTPUT,
        decreases v@.len() - k,
    {
        assert(v@.take(k + 1).drop_last() =~= v@.take(k as int));
        used = used + crate::text::char_utf8_len(v[k]);
        k += 1;
    }
    proof {
        lemma_fit_step(v@, k as int, MAX_TOOL_OUTPUT as int);
        if k < v@.len() {
            assert(v@.skip(k as int)[0] == v@[k as int]);
        }
    }
    let kept = slice_chars(&v, 0, k);
    assert(kept@ =~= v@.take(k as int));
    let mut out = slice_chars(&kept, 0, k);
    assert(out@ =~= kept@);
    push_str_chars(&mut out, "\n\n[truncated: ");
    push_decimal(&mut out, used);
    push_str_chars(&mut out, " of ");
    push_decimal(&mut out, total);
    push_str_chars(&mut out, " bytes]");
    string_of(&out)
}

/// The tool that writes a file.
pub struct WriteFile;

/// The tool that lists a directory.
pub struct ListDirectory;

/// The tool that runs a shell command.
pub struct Shell;

/// The tool that searches file contents.
pub struct Grep;

/// The tool that finds files by pattern.
pub struct Glob;

/// The tool that saves the todo list.
pub struct TodoWrite;

/// The tool that fetches a web page.
pub struct WebFetch;

/// The tool that searches the web.
pub struct WebSearch;

impl WriteFile {
    /// The report after writing `content_len` bytes to `path`.
    pub fn report(path: &str, content_len: usize) -> (r: String)
        ensures
            r@ == "wrote "@ + decimal(content_len as nat) + " bytes to "@ + path@,
    {
        let mut out: Vec<char> = Vec::new();
        push_str_chars(&mut out, "wrote ");
        push_decimal(&mut out, content_len);
        push_str_chars(&mut out, " bytes to ");
        push_str_chars(&mut out, path);
        string_of(&out)
    }
}

impl Shell {
    /// The timeout a call asks for, 120 seconds by default, at most 600.
    pub fn timeout_secs(requested: Option<u64>) -> (r: u64)
        ensures
            r == match requested {
                Some(t) => if t <= 600 {
                    t
                } else {
                    600
                },
                None => 120,
            },
    {
        let t = match requested {
            Some(t) => t,
            None => 120,
        };
        if t <= 600 {
            t
        } else {
            600
        }
    }
}

} // verus!
