//! The `apply_patch` tool's patch format: sections, hunk headers, and
//! applying hunks to a file's lines.
use vstd::prelude::*;

use crate::text::{
    chars_of, decimal, eq_str, extend_chars, find_first, find_spec, incl_lines, incl_lines_of,
    join_chars, join_with, lemma_find_spec, parse_usize, parse_usize_spec, push_decimal,
    push_str_chars, slice_chars, split_chars, split_on, split_str, split_str_of, starts_with,
    starts_with_chars, str_lines, str_lines_of, string_of, trim_chars, trim_spec, view2, ws_tokens,
    ws_tokens_of,
};

verus! {

/// The `apply_patch` tool.
pub struct ApplyPatch;

/// One `*** <Action> File: <target>` section of a patch and the text after
/// its header line, up to the next header.
#[derive(Debug, Clone)]
pub struct PatchSection {
    pub action: String,
    pub target: String,
    pub body: String,
}

impl PatchSection {
    pub open spec fn view(self) -> (Seq<char>, Seq<char>, Seq<char>) {
        (self.action@, self.target@, self.body@)
    }
}

/// The text after `*** ` on a header line (the line trimmed first).
pub open spec fn header_rest(line: Seq<char>) -> Option<Seq<char>> {
    let t = trim_spec(line);
    if starts_with(t, "*** "@) {
        Some(t.skip("*** "@.len() as int))
    } else {
        None
    }
}

/// `<Action> File: <target>` split into the action and the trimmed target;
/// without ` File: ` the target is empty.
pub open spec fn split_header(rest: Seq<char>) -> (Seq<char>, Seq<char>) {
    match find_spec(rest, " File: "@, 0) {
        Some(i) => (rest.take(i), trim_spec(rest.skip(i + " File: "@.len()))),
        None => (rest, Seq::empty()),
    }
}

/// Scan state after `k` lines: the closed sections, the open one (action
/// and target), and the body gathered for it.
pub open spec fn scan_sections(lines: Seq<Seq<char>>, k: int) -> (
    Seq<(Seq<char>, Seq<char>, Seq<char>)>,
    Option<(Seq<char>, Seq<char>)>,
    Seq<char>,
)
    decreases k,
{
    if k <= 0 {
        (seq![], None, seq![])
    } else {
        let (secs, cur, body) = scan_sections(lines, k - 1);
        let l = lines[k - 1];
        match header_rest(l) {
            Some(rest) => {
                let closed = match cur {
                    Some((a, t)) => secs.push((a, t, body)),
                    None => secs,
                };
                if rest == "Begin Patch"@ || rest == "End Patch"@ {
                    (closed, None, seq![])
                } else {
                    let (a, t) = split_header(rest);
                    if t.len() == 0 {
                        (closed, None, seq![])
                    } else {
                        (closed, Some((a, t)), seq![])
                    }
                }
            },
            None => match cur {
                Some(_) => (secs, cur, body + l),
                None => (secs, cur, body),
            },
        }
    }
}

/// The sections of a patch, in order.
pub open spec fn sections_spec(patch: Seq<char>) -> Seq<(Seq<char>, Seq<char>, Seq<char>)> {
    let lines = incl_lines(patch);
    let (secs, cur, body) = scan_sections(lines, lines.len() as int);
    match cur {
        Some((a, t)) => secs.push((a, t, body)),
        None => secs,
    }
}

fn header_rest_of(line: &Vec<char>) -> (r: Option<Vec<char>>)
    ensures
        match header_rest(line@) {
            Some(rest) => r matches Some(v) && v@ == rest,
            None => r is None,
        },
{
    let t = trim_chars(line);
    let marker = chars_of("*** ");
    if starts_with_chars(&t, &marker) {
        let rest = crate::text::slice_chars(&t, marker.len(), t.len());
        Some(rest)
    } else {
        None
    }
}

fn split_header_of(rest: &Vec<char>) -> (r: (Vec<char>, Vec<char>))
    ensures
        (r.0@, r.1@) == split_header(rest@),
{
    let sep = chars_of(" File: ");
    let len = rest.len();
    proof {
        crate::text::lemma_find_spec(rest@, sep@, 0);
    }
    match find_first(rest, &sep, 0) {
        Some(i) => {
            let a = crate::text::slice_chars(rest, 0, i);
            let t0 = crate::text::slice_chars(rest, i + sep.len(), len);
            let t = trim_chars(&t0);
            assert(a@ =~= rest@.take(i as int));
            assert(t0@ =~= rest@.skip(i + sep@.len()));
            (a, t)
        },
        None => {
            let a = crate::text::slice_chars(rest, 0, rest.len());
            assert(a@ =~= rest@);
            (a, Vec::new())
        },
    }
}

/// Split a patch into its sections.
pub fn split_sections(patch: &str) -> (r: Vec<PatchSection>)
    ensures
        r@.len() == sections_spec(patch@).len(),
        forall|k: int| 0 <= k < r@.len() ==> (#[trigger] r@[k]).view() == sections_spec(patch@)[k],
{
    let pv = chars_of(patch);
    let lines = incl_lines_of(&pv);
    let ghost lv = view2(lines@);
    let mut secs: Vec<PatchSection> = Vec::new();
    let mut cur: Option<(Vec<char>, Vec<char>)> = None;
    let mut body: Vec<char> = Vec::new();
    let mut k: usize = 0;
    while k < lines.len()
        invariant
            k <= lines@.len(),
            lv == view2(lines@),
            lv == incl_lines(patch@),
            ({
                let (ss, sc, sb) = scan_sections(lv, k as int);
                &&& secs@.len() == ss.len()
                &&& forall|x: int| 0 <= x < secs@.len() ==> (#[trigger] secs@[x]).view() == ss[x]
                &&& match sc {
                    Some((a, t)) => cur matches Some(c) && c.0@ == a && c.1@ == t,
                    None => cur is None,
                }
                &&& body@ == sb
            }),
        decreases lines@.len() - k,
    {
        let l = &lines[k];
        match header_rest_of(l) {
            Some(rest) => {
                let taken = cur;
                cur = None;
                match taken {
                    Some((a, t)) => {
                        secs.push(PatchSection { action: string_of(&a), target: string_of(&t), body: string_of(&body) });
                    },
                    None => {},
                }
                body = Vec::new();
                if eq_str(&rest, "Begin Patch") || eq_str(&rest, "End Patch") {
                } else {
                    let (a, t) = split_header_of(&rest);
                    if t.len() > 0 {
                        cur = Some((a, t));
                    }
                }
            },
            None => {
                if cur.is_some() {
                    crate::text::extend_chars(&mut body, l);
                }
            },
        }
        k += 1;
    }
    match cur {
        Some((a, t)) => {
            secs.push(PatchSection { action: string_of(&a), target: string_of(&t), body: string_of(&body) });
        },
        None => {},
    }
    secs
}

/// `<start>[,<count>]`: the count is 1 when it is left out.
pub open spec fn parse_start_spec(s: Seq<char>) -> Option<(nat, nat)> {
    match find_spec(s, seq![','], 0) {
        Some(i) => match (parse_usize_spec(s.take(i)), parse_usize_spec(s.skip(i + 1))) {
            (Some(a), Some(b)) => Some((a, b)),
            _ => None,
        },
        None => match parse_usize_spec(s) {
            Some(a) => Some((a, 1)),
            None => None,
        },
    }
}

/// `-<old_start>[,<old_count>] +<new_start>[,<new_count>]` (trimmed) to
/// `(old_start, new_start, old_count)`.
pub open spec fn parse_range_spec(spec: Seq<char>) -> Option<(nat, nat, nat)> {
    let s = trim_spec(spec);
    if s.len() == 0 || s[0] != '-' {
        None
    } else {
        let toks = ws_tokens(s.skip(1));
        if toks.len() < 1 {
            None
        } else {
            match parse_start_spec(toks[0]) {
                None => None,
                Some((old_start, old_count)) => if toks.len() < 2 || toks[1].len() == 0
                    || toks[1][0] != '+' {
                    None
                } else {
                    match parse_start_spec(toks[1].skip(1)) {
                        None => None,
                        Some((new_start, _)) => Some((old_start, new_start, old_count)),
                    }
                },
            }
        }
    }
}

/// Parse `<start>[,<count>]`.
pub fn parse_start(s: &[char]) -> (r: Option<(usize, usize)>)
    ensures
        r == (match parse_start_spec(s@) {
            Some((a, b)) => Some((a as usize, b as usize)),
            None => None::<(usize, usize)>,
        }),
{
    let comma: Vec<char> = vec![','];
    assert(comma@ =~= seq![',']);
    proof {
        lemma_find_spec(s@, comma@, 0);
    }
    let len = s.len();
    match find_first(s, &comma, 0) {
        Some(i) => {
            let a = slice_chars(s, 0, i);
            let b = slice_chars(s, i + 1, len);
            assert(a@ =~= s@.take(i as int));
            assert(b@ =~= s@.skip(i + 1));
            match (parse_usize(&a), parse_usize(&b)) {
                (Some(x), Some(y)) => Some((x, y)),
                _ => None,
            }
        },
        None => match parse_usize(s) {
            Some(x) => Some((x, 1)),
            None => None,
        },
    }
}

/// Parse `-old_start[,old_count] +new_start[,new_count]` from a hunk header.
pub fn parse_range(spec: &[char]) -> (r: Option<(usize, usize, usize)>)
    ensures
        r == (match parse_range_spec(spec@) {
            Some((a, b, c)) => Some((a as usize, b as usize, c as usize)),
            None => None::<(usize, usize, usize)>,
        }),
{
    let s = trim_chars(spec);
    if s.len() == 0 || s[0] != '-' {
        return None;
    }
    let rest = slice_chars(&s, 1, s.len());
    assert(rest@ =~= s@.skip(1));
    let toks = ws_tokens_of(&rest);
    if toks.len() < 1 {
        return None;
    }
    let (old_start, old_count) = match parse_start(&toks[0]) {
        Some(p) => p,
        None => return None,
    };
    if toks.len() < 2 || toks[1].len() == 0 || toks[1][0] != '+' {
        return None;
    }
    let t1 = slice_chars(&toks[1], 1, toks[1].len());
    assert(t1@ =~= toks@[1]@.skip(1));
    match parse_start(&t1) {
        Some((new_start, _)) => Some((old_start, new_start, old_count)),
        None => None,
    }
}

/// `update <path>: ` before each update error.
pub open spec fn update_prefix(path: Seq<char>) -> Seq<char> {
    "update "@ + path + ": "@
}

/// Why a hunk line does not fit the file at 0-based line `pos`, if it does not.
pub open spec fn expect_spec(path: Seq<char>, pos: int, file: Seq<Seq<char>>, expected: Seq<char>) -> Option<
    Seq<char>,
> {
    if pos < 0 || pos >= file.len() {
        Some(update_prefix(path) + "patch does not fit (line "@ + decimal((pos + 1) as nat) + ")"@)
    } else if file[pos] != expected {
        Some(update_prefix(path) + "patch does not fit — expected `"@ + expected + "` at line "@
            + decimal((pos + 1) as nat) + ", found `"@ + file[pos] + "`"@)
    } else {
        None
    }
}

/// Check that line `pos` (0-based) of the file is `expected`.
pub fn expect_line(path: &str, pos: usize, file_lines: &Vec<Vec<char>>, expected: &[char]) -> (r: Result<(), String>)
    requires
        pos < usize::MAX,
    ensures
        match expect_spec(path@, pos as int, view2(file_lines@), expected@) {
            Some(e) => r matches Err(m) && m@ == e,
            None => r is Ok,
        },
{
    if pos >= file_lines.len() {
        let mut m: Vec<char> = Vec::new();
        push_str_chars(&mut m, "update ");
        push_str_chars(&mut m, path);
        push_str_chars(&mut m, ": ");
        push_str_chars(&mut m, "patch does not fit (line ");
        push_decimal(&mut m, pos + 1);
        push_str_chars(&mut m, ")");
        assert(m@ =~= update_prefix(path@) + "patch does not fit (line "@ + decimal((pos + 1) as nat) + ")"@);
        return Err(string_of(&m));
    }
    let actual = &file_lines[pos];
    if !crate::text::chars_eq(actual, expected) {
        let mut m: Vec<char> = Vec::new();
        push_str_chars(&mut m, "update ");
        push_str_chars(&mut m, path);
        push_str_chars(&mut m, ": ");
        push_str_chars(&mut m, "patch does not fit — expected `");
        extend_chars(&mut m, expected);
        push_str_chars(&mut m, "` at line ");
        push_decimal(&mut m, pos + 1);
        push_str_chars(&mut m, ", found `");
        extend_chars(&mut m, actual);
        push_str_chars(&mut m, "`");
        assert(m@ =~= update_prefix(path@) + "patch does not fit — expected `"@ + expected@
            + "` at line "@ + decimal((pos + 1) as nat) + ", found `"@ + actual@ + "`"@);
        return Err(string_of(&m));
    }
    Ok(())
}

/// The hunk lines from `j` on applied at 0-based file line `pos`, with
/// `out` the lines written so far: the new position and output, or why a
/// line does not fit.
pub open spec fn apply_lines(
    path: Seq<char>,
    file: Seq<Seq<char>>,
    lines: Seq<Seq<char>>,
    j: int,
    pos: int,
    out: Seq<Seq<char>>,
) -> Result<(int, Seq<Seq<char>>), Seq<char>>
    decreases lines.len() - j,
{
    if j < 0 || j >= lines.len() {
        Ok((pos, out))
    } else {
        let l = lines[j];
        if l.len() == 0 {
            apply_lines(path, file, lines, j + 1, pos, out)
        } else if l[0] == '-' {
            match expect_spec(path, pos, file, l.skip(1)) {
                Some(e) => Err(e),
                None => apply_lines(path, file, lines, j + 1, pos + 1, out),
            }
        } else if l[0] == '+' {
            apply_lines(path, file, lines, j + 1, pos, out.push(l.skip(1)))
        } else {
            let rest = if l[0] == ' ' {
                l.skip(1)
            } else {
                l
            };
            match expect_spec(path, pos, file, rest) {
                Some(e) => Err(e),
                None => apply_lines(path, file, lines, j + 1, pos + 1, out.push(rest)),
            }
        }
    }
}

/// The error when a hunk starts past the end of the file.
pub open spec fn start_error(path: Seq<char>, old_start: nat, file_len: nat) -> Seq<char> {
    let n: nat = if file_len >= 1 {
        (file_len - 1) as nat
    } else {
        0
    };
    update_prefix(path) + "hunk starts at line "@ + decimal(old_start) + " but file has "@ + decimal(
        n,
    ) + " lines"@
}

/// Copy the untouched lines before a hunk that starts at 1-based line
/// `old_start`.
pub open spec fn copy_until(
    path: Seq<char>,
    file: Seq<Seq<char>>,
    old_start: nat,
    pos: int,
    out: Seq<Seq<char>>,
) -> Result<(int, Seq<Seq<char>>), Seq<char>> {
    if pos + 1 >= old_start {
        Ok((pos, out))
    } else if old_start - 1 > file.len() {
        Err(start_error(path, old_start, file.len()))
    } else {
        Ok((old_start - 1, out + file.subrange(pos, old_start - 1)))
    }
}

/// The hunks of `parts` (the patch body split at `@@`: range, body, range,
/// body, ...) from index `i` on; a range that does not parse skips its hunk.
pub open spec fn apply_parts(
    path: Seq<char>,
    file: Seq<Seq<char>>,
    parts: Seq<Seq<char>>,
    i: int,
    pos: int,
    out: Seq<Seq<char>>,
    applied: nat,
) -> Result<(int, Seq<Seq<char>>, nat), Seq<char>>
    decreases parts.len() - i,
{
    if i < 1 || i + 1 >= parts.len() {
        Ok((pos, out, applied))
    } else {
        match apply_part_spec(path, file, parts[i], parts[i + 1], pos, out) {
            Err(e) => Err(e),
            Ok(None) => apply_parts(path, file, parts, i + 2, pos, out, applied),
            Ok(Some((p, o))) => apply_parts(path, file, parts, i + 2, p, o, applied + 1),
        }
    }
}

/// The new content of a file and the number of hunks applied, or why the
/// update failed.
pub open spec fn update_spec(path: Seq<char>, original: Seq<char>, body: Seq<char>) -> Result<
    (Seq<char>, nat),
    Seq<char>,
> {
    let file = split_on(original, '\n');
    match apply_parts(path, file, split_str(body, "@@"@), 1, 0, seq![], 0) {
        Err(e) => Err(e),
        Ok((pos, out, applied)) => if applied == 0 {
            Err(update_prefix(path) + "no valid hunks found"@)
        } else {
            Ok((join_with(out + file.subrange(pos, file.len() as int), '\n'), applied))
        },
    }
}

pub proof fn lemma_apply_lines_pos(
    path: Seq<char>,
    file: Seq<Seq<char>>,
    lines: Seq<Seq<char>>,
    j: int,
    pos: int,
    out: Seq<Seq<char>>,
)
    requires
        0 <= pos <= file.len(),
    ensures
        apply_lines(path, file, lines, j, pos, out) matches Ok((p, _)) ==> pos <= p <= file.len(),
    decreases lines.len() - j,
{
    if 0 <= j < lines.len() {
        let l = lines[j];
        if l.len() == 0 || l[0] == '+' {
            lemma_apply_lines_pos(path, file, lines, j + 1, pos, if l.len() == 0 {
                out
            } else {
                out.push(l.skip(1))
            });
        } else {
            let rest = if l[0] == '-' || l[0] == ' ' {
                l.skip(1)
            } else {
                l
            };
            if pos < file.len() {
                lemma_apply_lines_pos(path, file, lines, j + 1, pos + 1, if l[0] == '-' {
                    out
                } else {
                    out.push(rest)
                });
            }
        }
    }
}

/// Lines added minus lines removed by the hunk lines from `j` on: `+1` for
/// each line that starts with `+`, `-1` for each that starts with `-`.
pub open spec fn line_delta(lines: Seq<Seq<char>>, j: int) -> int
    decreases lines.len() - j,
{
    if j < 0 || j >= lines.len() {
        0
    } else {
        let l = lines[j];
        let d: int = if l.len() > 0 && l[0] == '+' {
            1
        } else if l.len() > 0 && l[0] == '-' {
            -1
        } else {
            0
        };
        d + line_delta(lines, j + 1)
    }
}

/// Lines added minus lines removed by the hunks of `parts` (range, body,
/// range, body, ...) from index `i` on, counting only hunks whose range
/// parses.
pub open spec fn hunks_delta(parts: Seq<Seq<char>>, i: int) -> int
    decreases parts.len() - i,
{
    if i < 1 || i + 1 >= parts.len() {
        0
    } else {
        let d = if parse_range_spec(trim_spec(parts[i])) is Some {
            line_delta(str_lines(parts[i + 1]), 0)
        } else {
            0
        };
        d + hunks_delta(parts, i + 2)
    }
}

/// How many hunks of `parts` from index `i` on have a range that parses.
pub open spec fn hunk_count(parts: Seq<Seq<char>>, i: int) -> nat
    decreases parts.len() - i,
{
    if i < 1 || i + 1 >= parts.len() {
        0
    } else if parse_range_spec(trim_spec(parts[i])) is Some {
        1 + hunk_count(parts, i + 2)
    } else {
        hunk_count(parts, i + 2)
    }
}

proof fn lemma_apply_lines_count(
    path: Seq<char>,
    file: Seq<Seq<char>>,
    lines: Seq<Seq<char>>,
    j: int,
    pos: int,
    out: Seq<Seq<char>>,
)
    requires
        0 <= pos <= file.len(),
    ensures
        match apply_lines(path, file, lines, j, pos, out) {
            Ok((p, o)) => o.len() == out.len() + (p - pos) + line_delta(lines, j),
            Err(_) => true,
        },
    decreases lines.len() - j,
{
    if 0 <= j < lines.len() {
        let l = lines[j];
        if l.len() == 0 {
            lemma_apply_lines_count(path, file, lines, j + 1, pos, out);
        } else if l[0] == '+' {
            lemma_apply_lines_count(path, file, lines, j + 1, pos, out.push(l.skip(1)));
        } else if pos < file.len() {
            let rest = if l[0] == ' ' {
                l.skip(1)
            } else {
                l
            };
            if l[0] == '-' {
                lemma_apply_lines_count(path, file, lines, j + 1, pos + 1, out);
            } else {
                lemma_apply_lines_count(path, file, lines, j + 1, pos + 1, out.push(rest));
            }
        }
    }
}

proof fn lemma_apply_parts_count(
    path: Seq<char>,
    file: Seq<Seq<char>>,
    parts: Seq<Seq<char>>,
    i: int,
    pos: int,
    out: Seq<Seq<char>>,
    applied: nat,
)
    requires
        0 <= pos <= file.len(),
    ensures
        match apply_parts(path, file, parts, i, pos, out, applied) {
            Ok((p, o, n)) => pos <= p <= file.len() && o.len() == out.len() + (p - pos) + hunks_delta(
                parts,
                i,
            ) && n == applied + hunk_count(parts, i),
            Err(_) => true,
        },
    decreases parts.len() - i,
{
    if 1 <= i && i + 1 < parts.len() {
        match parse_range_spec(trim_spec(parts[i])) {
            None => {
                lemma_apply_parts_count(path, file, parts, i + 2, pos, out, applied);
            },
            Some((old_start, _, _)) => {
                match copy_until(path, file, old_start, pos, out) {
                    Err(_) => {},
                    Ok((p2, o2)) => {
                        assert(pos <= p2 <= file.len());
                        assert(o2.len() == out.len() + (p2 - pos));
                        let lines = str_lines(parts[i + 1]);
                        lemma_apply_lines_pos(path, file, lines, 0, p2, o2);
                        lemma_apply_lines_count(path, file, lines, 0, p2, o2);
                        match apply_lines(path, file, lines, 0, p2, o2) {
                            Err(_) => {},
                            Ok((p3, o3)) => {
                                lemma_apply_parts_count(path, file, parts, i + 2, p3, o3, applied + 1);
                            },
                        }
                    },
                }
            },
        }
    }
}

/// The line a hunk line stands for without its marker: a leading `-`, `+`
/// or space is dropped, any other line stands as it is.
pub open spec fn unmarked(l: Seq<char>) -> Seq<char> {
    if l.len() > 0 && (l[0] == '-' || l[0] == '+' || l[0] == ' ') {
        l.skip(1)
    } else {
        l
    }
}

/// The old side of the hunk lines from `j` on: the removed and context
/// lines, in order.
pub open spec fn old_side(lines: Seq<Seq<char>>, j: int) -> Seq<Seq<char>>
    decreases lines.len() - j,
{
    if j < 0 || j >= lines.len() {
        seq![]
    } else if lines[j].len() == 0 || lines[j][0] == '+' {
        old_side(lines, j + 1)
    } else {
        seq![unmarked(lines[j])] + old_side(lines, j + 1)
    }
}

/// The new side of the hunk lines from `j` on: the added and context lines,
/// in order.
pub open spec fn new_side(lines: Seq<Seq<char>>, j: int) -> Seq<Seq<char>>
    decreases lines.len() - j,
{
    if j < 0 || j >= lines.len() {
        seq![]
    } else if lines[j].len() == 0 || lines[j][0] == '-' {
        new_side(lines, j + 1)
    } else {
        seq![unmarked(lines[j])] + new_side(lines, j + 1)
    }
}

/// A hunk applied at 0-based line `pos` replaces its old side by its new
/// side: when it fits, the file lines it consumes from `pos` are exactly its
/// removed and context lines, and what it writes after `out` is exactly its
/// added and context lines, in order.
pub proof fn law_hunk_replaces_old_side_by_new(
    path: Seq<char>,
    file: Seq<Seq<char>>,
    lines: Seq<Seq<char>>,
    j: int,
    pos: int,
    out: Seq<Seq<char>>,
)
    requires
        0 <= pos <= file.len(),
    ensures
        match apply_lines(path, file, lines, j, pos, out) {
            Ok((p, o)) => o == out + new_side(lines, j) && p == pos + old_side(lines, j).len() && p
                <= file.len() && file.subrange(pos, p) == old_side(lines, j),
            Err(_) => true,
        },
    decreases lines.len() - j,
{
    if 0 <= j < lines.len() {
        let l = lines[j];
        if l.len() == 0 {
            law_hunk_replaces_old_side_by_new(path, file, lines, j + 1, pos, out);
        } else if l[0] == '+' {
            let o1 = out.push(l.skip(1));
            law_hunk_replaces_old_side_by_new(path, file, lines, j + 1, pos, o1);
            assert(o1 + new_side(lines, j + 1) =~= out + new_side(lines, j));
        } else if pos < file.len() {
            let rest = if l[0] == ' ' {
                l.skip(1)
            } else {
                l
            };
            let o1 = if l[0] == '-' {
                out
            } else {
                out.push(rest)
            };
            law_hunk_replaces_old_side_by_new(path, file, lines, j + 1, pos + 1, o1);
            match apply_lines(path, file, lines, j + 1, pos + 1, o1) {
                Ok((p, o)) => {
                    if file[pos] == unmarked(l) {
                        assert(file.subrange(pos, p) =~= seq![file[pos]] + file.subrange(pos + 1, p));
                        assert(o1 + new_side(lines, j + 1) =~= out + new_side(lines, j));
                    }
                },
                Err(_) => {},
            }
        }
    }
}

/// Lines before a hunk are copied unchanged and in order: copying from
/// 0-based line `pos` up to a hunk that starts at 1-based line `old_start`
/// appends exactly the file lines from `pos` to just before the hunk, and
/// fails only when the hunk starts past the end of the file.
pub proof fn law_copy_keeps_untouched_lines(
    path: Seq<char>,
    file: Seq<Seq<char>>,
    old_start: nat,
    pos: int,
    out: Seq<Seq<char>>,
)
    requires
        0 <= pos <= file.len(),
    ensures
        pos + 1 >= old_start ==> copy_until(path, file, old_start, pos, out) == Ok::<
            (int, Seq<Seq<char>>),
            Seq<char>,
        >((pos, out)),
        pos + 1 < old_start && old_start <= file.len() + 1 ==> copy_until(
            path,
            file,
            old_start,
            pos,
            out,
        ) == Ok::<(int, Seq<Seq<char>>), Seq<char>>(
            (old_start - 1, out + Seq::new((old_start - 1 - pos) as nat, |k: int| file[pos + k])),
        ),
        pos + 1 < old_start && old_start > file.len() + 1 ==> copy_until(
            path,
            file,
            old_start,
            pos,
            out,
        ) is Err,
{
    if pos + 1 < old_start && old_start <= file.len() + 1 {
        assert(file.subrange(pos, old_start - 1) =~= Seq::new(
            (old_start - 1 - pos) as nat,
            |k: int| file[pos + k],
        ));
    }
}

proof fn lemma_apply_lines_prefix(
    path: Seq<char>,
    file: Seq<Seq<char>>,
    lines: Seq<Seq<char>>,
    j: int,
    pos: int,
    out: Seq<Seq<char>>,
)
    ensures
        match apply_lines(path, file, lines, j, pos, out) {
            Ok((p, o)) => out.len() <= o.len() && o.take(out.len() as int) == out,
            Err(_) => true,
        },
    decreases lines.len() - j,
{
    if 0 <= j < lines.len() {
        let l = lines[j];
        if l.len() == 0 {
            lemma_apply_lines_prefix(path, file, lines, j + 1, pos, out);
        } else if l[0] == '+' {
            let o1 = out.push(l.skip(1));
            lemma_apply_lines_prefix(path, file, lines, j + 1, pos, o1);
            assert(o1.take(out.len() as int) =~= out);
            match apply_lines(path, file, lines, j + 1, pos, o1) {
                Ok((p, o)) => {
                    assert(o.take(out.len() as int) =~= o.take(o1.len() as int).take(out.len() as int));
                },
                Err(_) => {},
            }
        } else {
            let rest = if l[0] == ' ' {
                l.skip(1)
            } else {
                l
            };
            if l[0] == '-' {
                lemma_apply_lines_prefix(path, file, lines, j + 1, pos + 1, out);
            } else {
                let o1 = out.push(rest);
                lemma_apply_lines_prefix(path, file, lines, j + 1, pos + 1, o1);
                assert(o1.take(out.len() as int) =~= out);
                match apply_lines(path, file, lines, j + 1, pos + 1, o1) {
                    Ok((p, o)) => {
                        assert(o.take(out.len() as int) =~= o.take(o1.len() as int).take(
                            out.len() as int,
                        ));
                    },
                    Err(_) => {},
                }
            }
        }
    }
}

proof fn lemma_apply_parts_prefix(
    path: Seq<char>,
    file: Seq<Seq<char>>,
    parts: Seq<Seq<char>>,
    i: int,
    pos: int,
    out: Seq<Seq<char>>,
    applied: nat,
)
    ensures
        match apply_parts(path, file, parts, i, pos, out, applied) {
            Ok((p, o, _)) => out.len() <= o.len() && o.take(out.len() as int) == out,
            Err(_) => true,
        },
    decreases parts.len() - i,
{
    if 1 <= i && i + 1 < parts.len() {
        match parse_range_spec(trim_spec(parts[i])) {
            None => {
                lemma_apply_parts_prefix(path, file, parts, i + 2, pos, out, applied);
            },
            Some((old_start, _, _)) => {
                match copy_until(path, file, old_start, pos, out) {
                    Err(_) => {},
                    Ok((p2, o2)) => {
                        assert(o2.take(out.len() as int) =~= out);
                        let lines = str_lines(parts[i + 1]);
                        lemma_apply_lines_prefix(path, file, lines, 0, p2, o2);
                        match apply_lines(path, file, lines, 0, p2, o2) {
                            Err(_) => {},
                            Ok((p3, o3)) => {
                                lemma_apply_parts_prefix(path, file, parts, i + 2, p3, o3, applied + 1);
                                match apply_parts(path, file, parts, i + 2, p3, o3, applied + 1) {
                                    Ok((p, o, _)) => {
                                        assert(o.take(out.len() as int) =~= o.take(o3.len() as int).take(
                                            o2.len() as int,
                                        ).take(out.len() as int));
                                    },
                                    Err(_) => {},
                                }
                            },
                        }
                    },
                }
            },
        }
    }
}

/// The 0-based file line where the first hunk of `parts` from index `i` on
/// whose range parses starts (0 when there is none).
pub open spec fn first_hunk_start(parts: Seq<Seq<char>>, i: int) -> int
    decreases parts.len() - i,
{
    if i < 1 || i + 1 >= parts.len() {
        0
    } else {
        match parse_range_spec(trim_spec(parts[i])) {
            Some((old_start, _, _)) => if old_start >= 1 {
                old_start - 1
            } else {
                0
            },
            None => first_hunk_start(parts, i + 2),
        }
    }
}

proof fn lemma_first_hunk_prefix(
    path: Seq<char>,
    file: Seq<Seq<char>>,
    parts: Seq<Seq<char>>,
    i: int,
    applied: nat,
)
    ensures
        0 <= first_hunk_start(parts, i),
        match apply_parts(path, file, parts, i, 0, seq![], applied) {
            Ok((p, o, _)) => first_hunk_start(parts, i) <= o.len() && o.take(first_hunk_start(parts, i))
                == file.take(first_hunk_start(parts, i)),
            Err(_) => true,
        },
    decreases parts.len() - i,
{
    let e: Seq<Seq<char>> = seq![];
    if 1 <= i && i + 1 < parts.len() {
        match parse_range_spec(trim_spec(parts[i])) {
            None => {
                lemma_first_hunk_prefix(path, file, parts, i + 2, applied);
            },
            Some((old_start, _, _)) => {
                match copy_until(path, file, old_start, 0, e) {
                    Err(_) => {},
                    Ok((p2, o2)) => {
                        let fs = first_hunk_start(parts, i);
                        assert(o2.len() == fs);
                        assert(o2 =~= file.take(fs));
                        let lines = str_lines(parts[i + 1]);
                        lemma_apply_lines_prefix(path, file, lines, 0, p2, o2);
                        match apply_lines(path, file, lines, 0, p2, o2) {
                            Err(_) => {},
                            Ok((p3, o3)) => {
                                lemma_apply_parts_prefix(path, file, parts, i + 2, p3, o3, applied + 1);
                                match apply_parts(path, file, parts, i + 2, p3, o3, applied + 1) {
                                    Ok((p, o, _)) => {
                                        assert(o.take(fs) =~= o.take(o3.len() as int).take(
                                            o2.len() as int,
                                        ));
                                    },
                                    Err(_) => {},
                                }
                            },
                        }
                    },
                }
            },
        }
    } else {
        assert(e.take(0) =~= file.take(0));
    }
}

/// Lines that no hunk touches are kept: an update that succeeds gives the
/// file's lines, less each line a hunk removes, plus each line it adds, so
/// the new content has as many lines as the original has, plus the added
/// lines, minus the removed ones; the lines before the first hunk come
/// first, unchanged; and every hunk whose range parses is applied.
pub proof fn law_update_line_balance(path: Seq<char>, original: Seq<char>, body: Seq<char>)
    ensures
        match update_spec(path, original, body) {
            Ok((content, n)) => n == hunk_count(split_str(body, "@@"@), 1) && exists|ls: Seq<Seq<char>>|
                #![trigger join_with(ls, '\n')]
                content == join_with(ls, '\n') && ls.len() == split_on(original, '\n').len()
                    + hunks_delta(split_str(body, "@@"@), 1) && ls.take(first_hunk_start(
                    split_str(body, "@@"@),
                    1,
                )) == split_on(original, '\n').take(first_hunk_start(split_str(body, "@@"@), 1)),
            Err(_) => true,
        },
{
    let file = split_on(original, '\n');
    let parts = split_str(body, "@@"@);
    lemma_apply_parts_count(path, file, parts, 1, 0, seq![], 0);
    lemma_first_hunk_prefix(path, file, parts, 1, 0);
    match apply_parts(path, file, parts, 1, 0, seq![], 0) {
        Err(_) => {},
        Ok((pos, out, applied)) => {
            if applied != 0 {
                let ls = out + file.subrange(pos, file.len() as int);
                let fs = first_hunk_start(parts, 1);
                assert(ls.len() == file.len() + hunks_delta(parts, 1));
                assert(ls.take(fs) =~= out.take(fs));
                assert(update_spec(path, original, body) == Ok::<(Seq<char>, nat), Seq<char>>(
                    (join_with(ls, '\n'), applied),
                ));
            }
        },
    }
}

/// Apply the hunk lines `lines` at `pos`, appending to `out`.
fn apply_hunk_lines(
    path: &str,
    file: &Vec<Vec<char>>,
    lines: &Vec<Vec<char>>,
    pos: usize,
    out: &mut Vec<Vec<char>>,
) -> (r: Result<usize, String>)
    requires
        pos <= file@.len(),
        file@.len() < usize::MAX,
    ensures
        r is Err <==> apply_lines(path@, view2(file@), view2(lines@), 0, pos as int, view2(old(out)@)) is Err,
        r matches Err(m) ==> apply_lines(path@, view2(file@), view2(lines@), 0, pos as int, view2(old(out)@))
            == Err::<(int, Seq<Seq<char>>), Seq<char>>(m@),
        r matches Ok(p) ==> p <= file@.len() && apply_lines(path@, view2(file@), view2(lines@), 0, pos as int, view2(old(out)@))
            == Ok::<(int, Seq<Seq<char>>), Seq<char>>((p as int, view2(final(out)@))),
{
    let ghost lv = view2(lines@);
    let ghost fv = view2(file@);
    let ghost o0 = view2(out@);
    let ghost pos0 = pos;
    let mut at = pos;
    let mut j: usize = 0;
    while j < lines.len()
        invariant
            j <= lines@.len(),
            at <= file@.len() < usize::MAX,
            lv == view2(lines@),
            fv == view2(file@),
            o0 == view2(old(out)@),
            pos0 == pos,
            apply_lines(path@, fv, lv, 0, pos0 as int, o0) == apply_lines(
                path@,
                fv,
                lv,
                j as int,
                at as int,
                view2(out@),
            ),
        decreases lines@.len() - j,
    {
        let l = &lines[j];
        if l.len() == 0 {
        } else if l[0] == '-' {
            let rest = slice_chars(l, 1, l.len());
            assert(rest@ =~= lv[j as int].skip(1));
            match expect_line(path, at, file, &rest) {
                Err(e) => {
                    assert(expect_spec(path@, at as int, fv, lv[j as int].skip(1)) == Some(e@));
                    assert(apply_lines(path@, fv, lv, j as int, at as int, view2(out@)) == Err::<
                        (int, Seq<Seq<char>>),
                        Seq<char>,
                    >(e@));
                    assert(apply_lines(path@, fv, lv, 0, pos0 as int, o0) == Err::<
                        (int, Seq<Seq<char>>),
                        Seq<char>,
                    >(e@));
                    return Err(e);
                },
                Ok(()) => {},
            }
            at += 1;
        } else if l[0] == '+' {
            let rest = slice_chars(l, 1, l.len());
            assert(rest@ =~= lv[j as int].skip(1));
            let ghost prev = view2(out@);
            out.push(rest);
            assert(view2(out@) =~= prev.push(lv[j as int].skip(1)));
        } else {
            let rest = if l[0] == ' ' {
                slice_chars(l, 1, l.len())
            } else {
                slice_chars(l, 0, l.len())
            };
            assert(rest@ =~= (if lv[j as int][0] == ' ' {
                lv[j as int].skip(1)
            } else {
                lv[j as int]
            }));
            match expect_line(path, at, file, &rest) {
                Err(e) => {
                    assert(expect_spec(path@, at as int, fv, rest@) == Some(e@));
                    assert(apply_lines(path@, fv, lv, j as int, at as int, view2(out@)) == Err::<
                        (int, Seq<Seq<char>>),
                        Seq<char>,
                    >(e@));
                    assert(apply_lines(path@, fv, lv, 0, pos0 as int, o0) == Err::<
                        (int, Seq<Seq<char>>),
                        Seq<char>,
                    >(e@));
                    return Err(e);
                },
                Ok(()) => {},
            }
            let ghost prev = view2(out@);
            out.push(rest);
            assert(view2(out@) =~= prev.push(rest@));
            at += 1;
        }
        j += 1;
    }
    Ok(at)
}

fn start_error_of(path: &str, old_start: usize, file_len: usize) -> (r: String)
    ensures
        r@ == start_error(path@, old_start as nat, file_len as nat),
{
    let n: usize = if file_len >= 1 {
        file_len - 1
    } else {
        0
    };
    let mut m: Vec<char> = Vec::new();
    push_str_chars(&mut m, "update ");
    push_str_chars(&mut m, path);
    push_str_chars(&mut m, ": ");
    push_str_chars(&mut m, "hunk starts at line ");
    push_decimal(&mut m, old_start);
    push_str_chars(&mut m, " but file has ");
    push_decimal(&mut m, n);
    push_str_chars(&mut m, " lines");
    assert(m@ =~= start_error(path@, old_start as nat, file_len as nat));
    string_of(&m)
}

pub proof fn lemma_parse_range_bounds(spec: Seq<char>)
    ensures
        parse_range_spec(spec) matches Some((a, b, c)) ==> a <= usize::MAX && b <= usize::MAX && c
            <= usize::MAX,
{
}

/// The result of one `@@` range and its hunk lines applied at `pos` after
/// `out`: skipped (`None`) when the range does not parse.
pub open spec fn apply_part_spec(
    path: Seq<char>,
    file: Seq<Seq<char>>,
    range: Seq<char>,
    hunk: Seq<char>,
    pos: int,
    out: Seq<Seq<char>>,
) -> Result<Option<(int, Seq<Seq<char>>)>, Seq<char>> {
    match parse_range_spec(trim_spec(range)) {
        None => Ok(None),
        Some((old_start, _, _)) => match copy_until(path, file, old_start, pos, out) {
            Err(e) => Err(e),
            Ok((p2, o2)) => match apply_lines(path, file, str_lines(hunk), 0, p2, o2) {
                Err(e) => Err(e),
                Ok((p3, o3)) => Ok(Some((p3, o3))),
            },
        },
    }
}

fn apply_part(
    path: &str,
    file: &Vec<Vec<char>>,
    range: &Vec<char>,
    hunk: &Vec<char>,
    pos: usize,
    out: &mut Vec<Vec<char>>,
) -> (r: Result<Option<usize>, String>)
    requires
        pos <= file@.len() < usize::MAX,
    ensures
        match apply_part_spec(path@, view2(file@), range@, hunk@, pos as int, view2(old(out)@)) {
            Ok(None) => r == Ok::<Option<usize>, String>(None) && final(out)@ == old(out)@,
            Ok(Some((p, o))) => r == Ok::<Option<usize>, String>(Some(p as usize)) && view2(
                final(out)@,
            ) == o && 0 <= p <= file@.len(),
            Err(e) => r matches Err(m) && m@ == e,
        },
{
    let ghost fv = view2(file@);
    let ghost st_out = view2(out@);
    let trimmed = trim_chars(range);
    let old_start = match parse_range(&trimmed) {
        None => return Ok(None),
        Some((os, _, _)) => os,
    };
    proof {
        lemma_parse_range_bounds(trim_spec(range@));
    }
    let mut at = pos;
    // Copy the untouched lines before the hunk (old_start is 1-based).
    if at + 1 < old_start {
        if old_start - 1 > file.len() {
            return Err(start_error_of(path, old_start, file.len()));
        }
        while at + 1 < old_start
            invariant
                pos <= at,
                at + 1 <= old_start,
                old_start - 1 <= file@.len(),
                fv == view2(file@),
                view2(out@) == st_out + fv.subrange(pos as int, at as int),
            decreases old_start - at,
        {
            let line = slice_chars(&file[at], 0, file[at].len());
            assert(line@ =~= fv[at as int]);
            let ghost prev = view2(out@);
            out.push(line);
            assert(view2(out@) =~= prev.push(fv[at as int]));
            assert(st_out + fv.subrange(pos as int, at + 1) =~= (st_out + fv.subrange(
                pos as int,
                at as int,
            )).push(fv[at as int]));
            at += 1;
        }
    } else {
        assert(st_out + fv.subrange(pos as int, at as int) =~= st_out);
    }
    assert(copy_until(path@, fv, old_start as nat, pos as int, st_out) == Ok::<
        (int, Seq<Seq<char>>),
        Seq<char>,
    >((at as int, view2(out@))));
    let hunk_lines = str_lines_of(hunk);
    match apply_hunk_lines(path, file, &hunk_lines, at, out) {
        Err(e) => Err(e),
        Ok(p) => Ok(Some(p)),
    }
}

/// Apply the hunks of a patch section's `body` to a file's `original`
/// content: the new content and the number of hunks applied, or why the
/// patch does not fit. Hunks are applied in order against the original.
pub fn apply_update(path: &str, original: &str, body: &str) -> (r: Result<(String, usize), String>)
    requires
        original@.len() + 2 < usize::MAX,
    ensures
        match update_spec(path@, original@, body@) {
            Ok((content, n)) => r matches Ok((c, k)) && c@ == content && k == n,
            Err(e) => r matches Err(m) && m@ == e,
        },
{
    let ov = chars_of(original);
    let file = split_chars(&ov, '\n');
    proof {
        crate::text::lemma_split_count(original@, '\n');
    }
    let bv = chars_of(body);
    let marks: Vec<char> = vec!['@', '@'];
    assert(marks@ =~= "@@"@) by {
        reveal_strlit("@@");
    }
    let parts = split_str_of(&bv, &marks);
    let ghost fv = view2(file@);
    let ghost pv = view2(parts@);
    let mut out: Vec<Vec<char>> = Vec::new();
    let mut pos: usize = 0;
    let mut applied: usize = 0;
    let mut i: usize = 1;
    assert(view2(out@) =~= Seq::<Seq<char>>::empty());
    while parts.len() > 0 && i < parts.len() - 1
        invariant
            1 <= i,
            fv == view2(file@),
            pv == view2(parts@),
            fv == split_on(original@, '\n'),
            pv == split_str(body@, "@@"@),
            file@.len() < usize::MAX,
            pos <= file@.len(),
            applied <= i,
            apply_parts(path@, fv, pv, 1, 0, seq![], 0) == apply_parts(
                path@,
                fv,
                pv,
                i as int,
                pos as int,
                view2(out@),
                applied as nat,
            ),
        decreases parts@.len() - i,
    {
        let ghost st_out = view2(out@);
        let ghost st_pos = pos;
        let ghost sp = apply_part_spec(path@, fv, pv[i as int], pv[i + 1], st_pos as int, st_out);
        assert(apply_parts(path@, fv, pv, i as int, st_pos as int, st_out, applied as nat) == match sp {
            Err(e) => Err(e),
            Ok(None) => apply_parts(path@, fv, pv, i + 2, st_pos as int, st_out, applied as nat),
            Ok(Some((p, o))) => apply_parts(path@, fv, pv, i + 2, p, o, (applied + 1) as nat),
        });
        match apply_part(path, &file, &parts[i], &parts[i + 1], pos, &mut out) {
            Err(e) => {
                proof {
                    match sp {
                        Err(se) => {
                            assert(se == e@);
                        },
                        _ => {
                            assert(false);
                        },
                    }
                }
                return Err(e);
            },
            Ok(None) => {
                proof {
                    match sp {
                        Ok(None) => {},
                        _ => {
                            assert(false);
                        },
                    }
                }
                assert(view2(out@) =~= st_out);
            },
            Ok(Some(p)) => {
                proof {
                    match sp {
                        Ok(Some((q, o))) => {
                            assert(q == p as int);
                            assert(o == view2(out@));
                        },
                        _ => {
                            assert(false);
                        },
                    }
                }
                pos = p;
                applied += 1;
            },
        }
        i += 2;
    }
    if applied == 0 {
        let mut m: Vec<char> = Vec::new();
        push_str_chars(&mut m, "update ");
        push_str_chars(&mut m, path);
        push_str_chars(&mut m, ": ");
        push_str_chars(&mut m, "no valid hunks found");
        assert(m@ =~= update_prefix(path@) + "no valid hunks found"@);
        return Err(string_of(&m));
    }
    let ghost fin_out = view2(out@);
    let ghost fin_pos = pos;
    while pos < file.len()
        invariant
            fin_pos <= pos <= file@.len(),
            fv == view2(file@),
            view2(out@) == fin_out + fv.subrange(fin_pos as int, pos as int),
        decreases file@.len() - pos,
    {
        let line = slice_chars(&file[pos], 0, file[pos].len());
        assert(line@ =~= fv[pos as int]);
        let ghost prev = view2(out@);
        out.push(line);
        assert(view2(out@) =~= prev.push(fv[pos as int]));
        assert(fin_out + fv.subrange(fin_pos as int, pos + 1) =~= (fin_out + fv.subrange(
            fin_pos as int,
            pos as int,
        )).push(fv[pos as int]));
        pos += 1;
    }
    let joined = join_chars(&out, '\n');
    Ok((string_of(&joined), applied))
}

/// `p` without a leading `+`.
pub open spec fn strip_plus(p: Seq<char>) -> Seq<char> {
    if p.len() > 0 && p[0] == '+' {
        p.skip(1)
    } else {
        p
    }
}

/// Each line of `lines` without its leading `+`, followed by a newline.
pub open spec fn added_lines(lines: Seq<Seq<char>>) -> Seq<char>
    decreases lines.len(),
{
    if lines.len() == 0 {
        seq![]
    } else {
        added_lines(lines.drop_last()) + strip_plus(lines.last()) + seq!['\n']
    }
}

/// The content of an `Add File` section's file: each body line without its
/// leading `+`, newline-terminated.
pub fn added_content(body: &str) -> (r: String)
    ensures
        r@ == added_lines(str_lines(body@)),
{
    let bv = chars_of(body);
    let lines = str_lines_of(&bv);
    let ghost lv = view2(lines@);
    let mut out: Vec<char> = Vec::new();
    let mut k: usize = 0;
    while k < lines.len()
        invariant
            k <= lines@.len(),
            lv == view2(lines@),
            out@ == added_lines(lv.take(k as int)),
        decreases lines@.len() - k,
    {
        let l = &lines[k];
        let start: usize = if l.len() > 0 && l[0] == '+' {
            1
        } else {
            0
        };
        let piece = slice_chars(l, start, l.len());
        assert(piece@ =~= strip_plus(lv[k as int]));
        extend_chars(&mut out, &piece);
        out.push('\n');
        assert(lv.take(k + 1).drop_last() =~= lv.take(k as int));
        k += 1;
    }
    assert(lv.take(k as int) =~= lv);
    string_of(&out)
}

/// `<from> → <to>` of a `Move File` section, both trimmed and non-empty.
pub open spec fn move_target_spec(target: Seq<char>) -> Option<(Seq<char>, Seq<char>)> {
    let pieces = split_on(target, '→');
    let from = trim_spec(pieces[0]);
    if from.len() == 0 || pieces.len() < 2 || trim_spec(pieces[1]).len() == 0 {
        None
    } else {
        Some((from, trim_spec(pieces[1])))
    }
}

/// Parse the target of a `Move File` section.
pub fn move_target(target: &str) -> (r: Option<(String, String)>)
    ensures
        match move_target_spec(target@) {
            Some((a, b)) => r matches Some((x, y)) && x@ == a && y@ == b,
            None => r is None,
        },
{
    let tv = chars_of(target);
    let pieces = split_chars(&tv, '→');
    proof {
        crate::text::lemma_split_on_len(target@, '→');
    }
    let from = trim_chars(&pieces[0]);
    if from.len() == 0 || pieces.len() < 2 {
        return None;
    }
    let to = trim_chars(&pieces[1]);
    if to.len() == 0 {
        return None;
    }
    Some((string_of(&from), string_of(&to)))
}

/// A patch is framed when it holds both `*** Begin Patch` and `*** End Patch`.
pub open spec fn framed(patch: Seq<char>) -> bool {
    crate::text::contains(patch, "*** Begin Patch"@) && crate::text::contains(patch, "*** End Patch"@)
}

/// Whether the patch holds both frame markers.
pub fn is_framed(patch: &str) -> (r: bool)
    ensures
        r == framed(patch@),
{
    let pv = chars_of(patch);
    crate::text::contains_str(&pv, "*** Begin Patch") && crate::text::contains_str(&pv, "*** End Patch")
}

/// `  - <item>\n` for each item.
pub open spec fn bullet_list(items: Seq<Seq<char>>) -> Seq<char>
    decreases items.len(),
{
    if items.len() == 0 {
        seq![]
    } else {
        bullet_list(items.drop_last()) + "  - "@ + items.last() + seq!['\n']
    }
}

/// The string views of a list of strings.
pub open spec fn strings_view(v: Seq<String>) -> Seq<Seq<char>> {
    Seq::new(v.len(), |k: int| v[k]@)
}

/// What `apply_patch` reports after running each section: the changes made
/// (`Ok`), or the failures, listed after any changes (`Err`).
pub open spec fn report_spec(changed: Seq<Seq<char>>, errors: Seq<Seq<char>>) -> Result<Seq<char>, Seq<char>> {
    let done = if changed.len() > 0 {
        "Applied "@ + decimal(changed.len()) + " change(s):\n"@ + bullet_list(changed)
    } else {
        seq![]
    };
    if errors.len() > 0 {
        Err(done + "Failed on "@ + decimal(errors.len()) + " change(s):\n"@ + bullet_list(errors))
    } else if changed.len() == 0 {
        Err("apply_patch: patch contains no file changes"@)
    } else {
        Ok(done)
    }
}

fn push_bullets(out: &mut Vec<char>, items: &Vec<String>)
    ensures
        final(out)@ == old(out)@ + bullet_list(strings_view(items@)),
{
    let ghost iv = strings_view(items@);
    let ghost base = out@;
    let mut k: usize = 0;
    while k < items.len()
        invariant
            k <= items@.len(),
            iv == strings_view(items@),
            out@ == base + bullet_list(iv.take(k as int)),
        decreases items@.len() - k,
    {
        push_str_chars(out, "  - ");
        push_str_chars(out, items[k].as_str());
        out.push('\n');
        assert(iv.take(k + 1).drop_last() =~= iv.take(k as int));
        assert(out@ =~= base + bullet_list(iv.take(k + 1)));
        k += 1;
    }
    assert(iv.take(k as int) =~= iv);
}

/// The report of an `apply_patch` run from the per-section outcomes.
pub fn patch_report(changed: &Vec<String>, errors: &Vec<String>) -> (r: Result<String, String>)
    ensures
        match report_spec(strings_view(changed@), strings_view(errors@)) {
            Ok(t) => r matches Ok(m) && m@ == t,
            Err(t) => r matches Err(m) && m@ == t,
        },
{
    let mut out: Vec<char> = Vec::new();
    if changed.len() > 0 {
        push_str_chars(&mut out, "Applied ");
        push_decimal(&mut out, changed.len());
        push_str_chars(&mut out, " change(s):\n");
        push_bullets(&mut out, changed);
    }
    if errors.len() > 0 {
        push_str_chars(&mut out, "Failed on ");
        push_decimal(&mut out, errors.len());
        push_str_chars(&mut out, " change(s):\n");
        push_bullets(&mut out, errors);
        return Err(string_of(&out));
    }
    if changed.len() == 0 {
        return Err(String::from_str("apply_patch: patch contains no file changes"));
    }
    Ok(string_of(&out))
}

} // verus!
