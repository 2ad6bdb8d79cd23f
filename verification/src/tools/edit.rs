//! The `edit_file` tool's replacement of a unique (or every) occurrence.
use vstd::prelude::*;

use crate::text::{chars_of, decimal, push_decimal, push_str_chars, split_str, split_str_of, string_of, view2};
use crate::web::{join_seqs, replace_chars, replace_spec};

verus! {

/// The tool that replaces text in a file.
pub struct EditFile;

/// Number of non-overlapping occurrences of `pat` in `s` (as
/// `str::matches(..).count()`).
pub open spec fn occurrences(s: Seq<char>, pat: Seq<char>) -> nat {
    (split_str(s, pat).len() - 1) as nat
}

/// `edit_file <path>: ` before each error about the file's content.
pub open spec fn edit_prefix(path: Seq<char>) -> Seq<char> {
    "edit_file "@ + path + ": "@
}

/// The outcome of an edit of `content`: the new content and the report, or
/// the error. Without `replace_all` the text to replace must occur exactly once.
pub open spec fn edit_spec(path: Seq<char>, content: Seq<char>, old: Seq<char>, new: Seq<char>, replace_all: bool) -> Result<
    (Seq<char>, Seq<char>),
    Seq<char>,
> {
    let n = occurrences(content, old);
    if n == 0 {
        Err(edit_prefix(path) + "old_string not found"@)
    } else if !replace_all && n > 1 {
        Err(edit_prefix(path) + "found "@ + decimal(n) + " matches; set replace_all=true or make old_string unique"@)
    } else {
        let count: nat = if replace_all {
            n
        } else {
            1
        };
        Ok((
            replace_spec(content, old, new),
            "edited "@ + path + ": replaced "@ + decimal(count) + " occurrence(s)\n- "@ + old + "\n+ "@ + new,
        ))
    }
}

impl EditFile {
    /// The text to replace must not be empty.
    pub fn check_old(old: &str) -> (r: Result<(), String>)
        ensures
            old@.len() == 0 <==> r is Err,
            r matches Err(m) ==> m@ == "edit_file: old_string must not be empty"@,
    {
        proof {
            crate::text::lemma_byte_len_zero(old@);
        }
        if crate::text::str_byte_len(old) == 0 {
            Err(String::from_str("edit_file: old_string must not be empty"))
        } else {
            Ok(())
        }
    }

    /// Replace `old` by `new` in a file's `content`.
    pub fn apply(path: &str, content: &str, old: &str, new: &str, replace_all: bool) -> (r: Result<(String, String), String>)
        requires
            old@.len() > 0,
        ensures
            match edit_spec(path@, content@, old@, new@, replace_all) {
                Ok((c, m)) => r matches Ok((rc, rm)) && rc@ == c && rm@ == m,
                Err(e) => r matches Err(m) && m@ == e,
            },
    {
        let cv = chars_of(content);
        let ov = chars_of(old);
        let parts = split_str_of(&cv, &ov);
        proof {
            lemma_split_str_nonempty(content@, old@);
        }
        let n = parts.len() - 1;
        let mut m: Vec<char> = Vec::new();
        push_str_chars(&mut m, "edit_file ");
        push_str_chars(&mut m, path);
        push_str_chars(&mut m, ": ");
        if n == 0 {
            push_str_chars(&mut m, "old_string not found");
            return Err(string_of(&m));
        }
        if !replace_all && n > 1 {
            push_str_chars(&mut m, "found ");
            push_decimal(&mut m, n);
            push_str_chars(&mut m, " matches; set replace_all=true or make old_string unique");
            return Err(string_of(&m));
        }
        let replaced = replace_chars(&cv, old, new);
        let count = if replace_all {
            n
        } else {
            1
        };
        let mut report: Vec<char> = Vec::new();
        push_str_chars(&mut report, "edited ");
        push_str_chars(&mut report, path);
        push_str_chars(&mut report, ": replaced ");
        push_decimal(&mut report, count);
        push_str_chars(&mut report, " occurrence(s)\n- ");
        push_str_chars(&mut report, old);
        push_str_chars(&mut report, "\n+ ");
        push_str_chars(&mut report, new);
        Ok((string_of(&replaced), string_of(&report)))
    }
}

proof fn lemma_split_str_nonempty(s: Seq<char>, pat: Seq<char>)
    ensures
        split_str(s, pat).len() >= 1,
    decreases s.len(),
{
    if pat.len() > 0 {
        match find_spec_of(s, pat) {
            Some(i) => {
                crate::text::lemma_find_spec(s, pat, 0);
            },
            None => {},
        }
    }
}

spec fn find_spec_of(s: Seq<char>, pat: Seq<char>) -> Option<int> {
    crate::text::find_spec(s, pat, 0)
}

} // verus!
