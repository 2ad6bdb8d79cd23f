//! The `read_file` tool: decoding a file's bytes and numbering a range of
//! its lines.
use vstd::prelude::*;

use crate::text::{chars_of, decimal, push_decimal, push_str_chars, push_u64, str_lines, str_lines_of, string_of, view2};
use crate::tools::{bound, bound_spec, MAX_FILE_BYTES};

verus! {

/// The tool that reads a file with line numbers.
pub struct ReadFile;

/// A line number right-aligned in five columns.
pub open spec fn padded(n: nat) -> Seq<char> {
    let d = decimal(n);
    if d.len() < 5 {
        Seq::new((5 - d.len()) as nat, |k: int| ' ') + d
    } else {
        d
    }
}

/// `<number> | <line>` for lines `start..end`, joined by newlines.
pub open spec fn numbered(lines: Seq<Seq<char>>, start: int, end: int) -> Seq<char>
    decreases end - start,
{
    if end <= start {
        seq![]
    } else if end == start + 1 {
        padded((start + 1) as nat) + " | "@ + lines[start]
    } else {
        numbered(lines, start, end - 1) + seq!['\n'] + padded(end as nat) + " | "@ + lines[end - 1]
    }
}

/// What `read_file` shows of a file's text for `offset` and an optional
/// `limit`: the numbered lines in range (bounded), or a note that none are.
pub open spec fn listing_spec(path: Seq<char>, content: Seq<char>, offset: nat, limit: Option<nat>) -> Seq<char> {
    let lines = str_lines(content);
    let n = lines.len();
    let start = if offset < n {
        offset
    } else {
        n
    };
    let end = match limit {
        Some(l) => if start + l < n {
            start + l
        } else {
            n
        },
        None => n,
    };
    if end <= start {
        "read_file "@ + path + ": no lines in range (file has "@ + decimal(n) + " lines)"@
    } else {
        bound_spec(
            "=== "@ + path + " (lines "@ + decimal(start + 1) + seq!['-'] + decimal(end) + ") ===\n"@
                + numbered(lines, start as int, end as int),
        )
    }
}

/// Whether bytes hold a NUL.
pub open spec fn has_nul(bytes: Seq<u8>) -> bool {
    exists|k: int| 0 <= k < bytes.len() && bytes[k] == 0
}

fn push_padded(out: &mut Vec<char>, n: usize)
    ensures
        final(out)@ == old(out)@ + padded(n as nat),
{
    let mut d: Vec<char> = Vec::new();
    push_decimal(&mut d, n);
    assert(d@ =~= decimal(n as nat));
    let ghost base = out@;
    if d.len() < 5 {
        let pad = 5 - d.len();
        for k in 0..pad
            invariant
                out@ =~= base + Seq::new(k as nat, |x: int| ' '),
        {
            out.push(' ');
        }
    }
    crate::text::extend_chars(out, &d);
    assert(out@ =~= base + padded(n as nat));
}

impl ReadFile {
    /// The note for a file over the size limit.
    pub fn too_large(path: &str, len: u64) -> (r: String)
        ensures
            r@ == "read_file "@ + path@ + ": file is "@ + decimal(len as nat) + " bytes (limit "@
                + decimal(MAX_FILE_BYTES as nat) + "). Use grep for targeted search."@,
    {
        let mut m: Vec<char> = Vec::new();
        push_str_chars(&mut m, "read_file ");
        push_str_chars(&mut m, path);
        push_str_chars(&mut m, ": file is ");
        push_u64(&mut m, len);
        push_str_chars(&mut m, " bytes (limit ");
        push_u64(&mut m, MAX_FILE_BYTES);
        push_str_chars(&mut m, "). Use grep for targeted search.");
        string_of(&m)
    }

    /// A file's text: not when it holds a NUL byte (binary) or is not UTF-8.
    pub fn decode(path: &str, bytes: Vec<u8>) -> (r: Result<String, String>)
        ensures
            has_nul(bytes@) ==> (r matches Err(m) && m@ == "read_file "@ + path@
                + ": binary file (contains NUL bytes)"@),
            !has_nul(bytes@) && !vstd::utf8::valid_utf8(bytes@) ==> (r matches Err(m) && m@
                == "read_file "@ + path@ + ": not valid UTF-8"@),
            !has_nul(bytes@) && vstd::utf8::valid_utf8(bytes@) ==> (r matches Ok(s) && s@
                == vstd::utf8::decode_utf8(bytes@)),
    {
        let mut k: usize = 0;
        while k < bytes.len()
            invariant
                k <= bytes@.len(),
                forall|x: int| 0 <= x < k ==> bytes@[x] != 0,
            decreases bytes@.len() - k,
        {
            if bytes[k] == 0 {
                let mut m: Vec<char> = Vec::new();
                push_str_chars(&mut m, "read_file ");
                push_str_chars(&mut m, path);
                push_str_chars(&mut m, ": binary file (contains NUL bytes)");
                return Err(string_of(&m));
            }
            k += 1;
        }
        match crate::text::utf8_text(bytes) {
            Some(s) => Ok(s),
            None => {
                let mut m: Vec<char> = Vec::new();
                push_str_chars(&mut m, "read_file ");
                push_str_chars(&mut m, path);
                push_str_chars(&mut m, ": not valid UTF-8");
                Err(string_of(&m))
            },
        }
    }

    /// The numbered lines of `content` from line `offset` (0-based), at most
    /// `limit` of them.
    pub fn listing(path: &str, content: &str, offset: usize, limit: Option<usize>) -> (r: String)
        ensures
            r@ == listing_spec(
                path@,
                content@,
                offset as nat,
                match limit {
                    Some(l) => Some(l as nat),
                    None => None,
                },
            ),
    {
        let lines = str_lines_of(&chars_of(content));
        let ghost lv = view2(lines@);
        let n = lines.len();
        let start = if offset < n {
            offset
        } else {
            n
        };
        let end = match limit {
            Some(l) => if l < n - start {
                start + l
            } else {
                n
            },
            None => n,
        };
        if end <= start {
            let mut m: Vec<char> = Vec::new();
            push_str_chars(&mut m, "read_file ");
            push_str_chars(&mut m, path);
            push_str_chars(&mut m, ": no lines in range (file has ");
            push_decimal(&mut m, n);
            push_str_chars(&mut m, " lines)");
            return string_of(&m);
        }
        let mut out: Vec<char> = Vec::new();
        push_str_chars(&mut out, "=== ");
        push_str_chars(&mut out, path);
        push_str_chars(&mut out, " (lines ");
        push_decimal(&mut out, start + 1);
        out.push('-');
        push_decimal(&mut out, end);
        push_str_chars(&mut out, ") ===\n");
        let ghost head = out@;
        assert(head =~= "=== "@ + path@ + " (lines "@ + decimal((start + 1) as nat) + seq!['-']
            + decimal(end as nat) + ") ===\n"@);
        assert(numbered(lv, start as int, start as int) =~= Seq::<char>::empty());
        assert(out@ =~= head + numbered(lv, start as int, start as int));
        let mut k = start;
        while k < end
            invariant
                start <= k <= end <= n,
                n == lines@.len(),
                lv == view2(lines@),
                out@ == head + numbered(lv, start as int, k as int),
            decreases end - k,
        {
            if k > start {
                out.push('\n');
            }
            push_padded(&mut out, k + 1);
            push_str_chars(&mut out, " | ");
            crate::text::extend_chars(&mut out, &lines[k]);
            assert(out@ =~= head + numbered(lv, start as int, k + 1));
            k += 1;
        }
        assert(lv == str_lines(content@));
        bound(string_of(&out))
    }
}

} // verus!
