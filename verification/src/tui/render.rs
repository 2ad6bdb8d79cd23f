//! What the conversation view shows, apart from drawing it: summaries and
//! labels of tool activity, wrapped prose, parsed diffs, and the composer's
//! height.
use vstd::prelude::*;

use crate::text::{
    rfind_chars, rfind_spec, lemma_rfind_spec,
    chars_of, decimal, eq_str, occurs_at, split_incl, split_incl_of, str_lines, str_lines_of, trim_end_spec,
    trim_start_spec, join_chars, join_with, extend_chars, push_decimal, push_str_chars, push_u64, slice_chars,
    split_on, split_chars, starts_with, starts_with_chars, string_of, trim_chars, trim_spec,
    view2, ws_tokens, ws_tokens_of,
};
use crate::tui::app::{ActivityItem, ToolKind};
use crate::tui::editor::{blank, line_text, TextEditor};
use crate::unicode::{display_width, grapheme_clusters, graphemes_of, width_of};

verus! {

/// At most `max` characters: longer text keeps `max - 1` and ends with `…`.
pub open spec fn truncate_spec(s: Seq<char>, max: nat) -> Seq<char> {
    if s.len() <= max {
        s
    } else {
        let keep: nat = if max >= 1 {
            (max - 1) as nat
        } else {
            0
        };
        s.take(keep as int).push('…')
    }
}

pub fn truncate(s: &str, max: usize) -> (r: String)
    ensures
        r@ == truncate_spec(s@, max as nat),
{
    let v = chars_of(s);
    if v.len() <= max {
        return string_of(&v);
    }
    let keep = if max >= 1 {
        max - 1
    } else {
        0
    };
    let mut cut = slice_chars(&v, 0, keep);
    cut.push('…');
    assert(cut@ =~= v@.take(keep as int).push('…'));
    string_of(&cut)
}

/// `<m>m <s>s` from a minute on, else `<s>s`.
pub open spec fn duration_text(secs: nat) -> Seq<char> {
    let m = secs / 60;
    let s = secs % 60;
    if m > 0 {
        decimal(m) + "m "@ + decimal(s) + seq!['s']
    } else {
        decimal(s) + seq!['s']
    }
}

pub fn fmt_duration(secs: u64) -> (r: String)
    ensures
        r@ == duration_text(secs as nat),
{
    let m = secs / 60;
    let s = secs % 60;
    let mut out: Vec<char> = Vec::new();
    if m > 0 {
        push_u64(&mut out, m);
        push_str_chars(&mut out, "m ");
    }
    push_u64(&mut out, s);
    out.push('s');
    string_of(&out)
}

/// `<action> <target>`, or just the action without a target.
pub open spec fn target_text(action: Seq<char>, target: Seq<char>) -> Seq<char> {
    if target.len() == 0 {
        action
    } else {
        action + seq![' '] + target
    }
}

pub fn fmt_target(action: &str, target: &str) -> (r: String)
    ensures
        r@ == target_text(action@, target@),
{
    let mut out: Vec<char> = Vec::new();
    push_str_chars(&mut out, action);
    let t = chars_of(target);
    if t.len() > 0 {
        out.push(' ');
        extend_chars(&mut out, &t);
    }
    string_of(&out)
}

/// What a git tool did, by name.
pub open spec fn git_semantic_spec(name: Seq<char>) -> Seq<char> {
    if name == "git_status"@ {
        "checked git status"@
    } else if name == "git_log"@ {
        "inspected git history"@
    } else if name == "git_diff"@ {
        "checked git diff"@
    } else {
        "ran "@ + name
    }
}

pub fn git_semantic(name: &str) -> (r: String)
    ensures
        r@ == git_semantic_spec(name@),
{
    let n = chars_of(name);
    if eq_str(&n, "git_status") {
        String::from_str("checked git status")
    } else if eq_str(&n, "git_log") {
        String::from_str("inspected git history")
    } else if eq_str(&n, "git_diff") {
        String::from_str("checked git diff")
    } else {
        let mut out: Vec<char> = Vec::new();
        push_str_chars(&mut out, "ran ");
        push_str_chars(&mut out, name);
        string_of(&out)
    }
}

/// What a shell command did: git subcommands are named by what they
/// inspect; other commands by the program and its first argument.
pub open spec fn shell_semantic_spec(command: Seq<char>) -> Seq<char> {
    let c = trim_spec(command);
    if starts_with(c, "git "@) {
        let sub = trim_spec(c.skip("git "@.len() as int));
        if starts_with(sub, "status"@) {
            "checked git status"@
        } else if starts_with(sub, "log"@) {
            "inspected git history"@
        } else if starts_with(sub, "diff"@) {
            "checked git diff"@
        } else if starts_with(sub, "show "@) {
            let h = trim_spec(sub.skip("show "@.len() as int));
            "inspected commit "@ + (if h.len() <= 7 {
                h
            } else {
                h.take(7)
            })
        } else {
            "ran git "@ + sub
        }
    } else {
        let words = ws_tokens(c);
        let prog = if words.len() > 0 {
            words[0]
        } else {
            "command"@
        };
        let arg = if words.len() > 1 {
            words[1]
        } else {
            Seq::<char>::empty()
        };
        if arg.len() == 0 {
            prog
        } else {
            prog + seq![' '] + arg
        }
    }
}

pub fn shell_semantic(command: &str) -> (r: String)
    ensures
        r@ == shell_semantic_spec(command@),
{
    let c = trim_chars(&chars_of(command));
    let git = chars_of("git ");
    let mut out: Vec<char> = Vec::new();
    if starts_with_chars(&c, &git) {
        let rest = slice_chars(&c, git.len(), c.len());
        assert(rest@ =~= c@.skip("git "@.len() as int));
        let sub = trim_chars(&rest);
        if starts_with_chars(&sub, &chars_of("status")) {
            push_str_chars(&mut out, "checked git status");
        } else if starts_with_chars(&sub, &chars_of("log")) {
            push_str_chars(&mut out, "inspected git history");
        } else if starts_with_chars(&sub, &chars_of("diff")) {
            push_str_chars(&mut out, "checked git diff");
        } else if starts_with_chars(&sub, &chars_of("show ")) {
            let show = chars_of("show ");
            let h0 = slice_chars(&sub, show.len(), sub.len());
            assert(h0@ =~= sub@.skip("show "@.len() as int));
            let h = trim_chars(&h0);
            let n = if h.len() <= 7 {
                h.len()
            } else {
                7
            };
            push_str_chars(&mut out, "inspected commit ");
            let hh = slice_chars(&h, 0, n);
            assert(hh@ =~= (if h@.len() <= 7 {
                h@
            } else {
                h@.take(7)
            }));
            extend_chars(&mut out, &hh);
        } else {
            push_str_chars(&mut out, "ran git ");
            extend_chars(&mut out, &sub);
        }
    } else {
        let words = ws_tokens_of(&c);
        if words.len() > 0 {
            extend_chars(&mut out, &words[0]);
        } else {
            push_str_chars(&mut out, "command");
        }
        if words.len() > 1 && words[1].len() > 0 {
            out.push(' ');
            extend_chars(&mut out, &words[1]);
        }
    }
    string_of(&out)
}

/// Human-readable, semantic label for one activity item.
pub open spec fn activity_label_spec(kind: ToolKind, name: Seq<char>, target: Seq<char>) -> Seq<char> {
    let t = trim_spec(target);
    match kind {
        ToolKind::Read => "read "@ + t,
        ToolKind::Grep => target_text("searched"@, t),
        ToolKind::List => "listed "@ + t,
        ToolKind::Write => "wrote "@ + t,
        ToolKind::Edit => "edited "@ + t,
        ToolKind::Shell => shell_semantic_spec(target),
        ToolKind::Git => git_semantic_spec(name),
        ToolKind::Fetch => "fetched "@ + t,
        ToolKind::Search => target_text("searched"@, t),
        ToolKind::Context => "context "@ + t,
        ToolKind::Other => if name == "glob"@ {
            target_text("searched"@, t)
        } else if name == "apply_patch"@ {
            "applied patch"@
        } else if name == "task"@ {
            "ran subagent"@
        } else if name == "todowrite"@ {
            "updated todos"@
        } else if name == "question"@ {
            "asked a question"@
        } else {
            name + seq![' '] + t
        },
    }
}

fn prefixed(prefix: &str, t: &Vec<char>) -> (r: String)
    ensures
        r@ == prefix@ + t@,
{
    let mut out: Vec<char> = Vec::new();
    push_str_chars(&mut out, prefix);
    extend_chars(&mut out, t);
    string_of(&out)
}

pub fn activity_item_label(item: &ActivityItem) -> (r: String)
    ensures
        r@ == activity_label_spec(item.kind, item.name@, item.target@),
{
    let t = trim_chars(&chars_of(item.target.as_str()));
    let ts = string_of(&t);
    match item.kind {
        ToolKind::Read => prefixed("read ", &t),
        ToolKind::Grep => fmt_target("searched", ts.as_str()),
        ToolKind::List => prefixed("listed ", &t),
        ToolKind::Write => prefixed("wrote ", &t),
        ToolKind::Edit => prefixed("edited ", &t),
        ToolKind::Shell => shell_semantic(item.target.as_str()),
        ToolKind::Git => git_semantic(item.name.as_str()),
        ToolKind::Fetch => prefixed("fetched ", &t),
        ToolKind::Search => fmt_target("searched", ts.as_str()),
        ToolKind::Context => prefixed("context ", &t),
        ToolKind::Other => {
            let n = chars_of(item.name.as_str());
            if eq_str(&n, "glob") {
                fmt_target("searched", ts.as_str())
            } else if eq_str(&n, "apply_patch") {
                String::from_str("applied patch")
            } else if eq_str(&n, "task") {
                String::from_str("ran subagent")
            } else if eq_str(&n, "todowrite") {
                String::from_str("updated todos")
            } else if eq_str(&n, "question") {
                String::from_str("asked a question")
            } else {
                let mut out = n;
                out.push(' ');
                extend_chars(&mut out, &t);
                string_of(&out)
            }
        },
    }
}

/// Prose wrapped at `width` characters: words (each with its trailing
/// space) fill a row until the next would overflow; rows lose trailing
/// whitespace; an empty line stays one empty row.
pub open spec fn prose_rows(words: Seq<Seq<char>>, width: nat) -> (Seq<Seq<char>>, Seq<char>)
    decreases words.len(),
{
    if words.len() == 0 {
        (seq![], seq![])
    } else {
        let (rows, cur) = prose_rows(words.drop_last(), width);
        let w = words.last();
        if cur.len() > 0 && cur.len() + w.len() > width {
            (rows.push(trim_end_spec(cur)), w)
        } else {
            (rows, cur + w)
        }
    }
}

pub open spec fn wrap_prose_spec(line: Seq<char>, width: nat) -> Seq<Seq<char>> {
    let (rows, cur) = prose_rows(split_incl(line, ' '), width);
    let all = if cur.len() > 0 {
        rows.push(trim_end_spec(cur))
    } else {
        rows
    };
    if all.len() == 0 {
        seq![seq![]]
    } else {
        all
    }
}

pub fn wrap_prose(line: &str, width: usize) -> (r: Vec<String>)
    ensures
        crate::goal::strs(r@) == wrap_prose_spec(line@, width as nat),
{
    let words = split_incl_of(&chars_of(line), ' ');
    let ghost wv = view2(words@);
    let mut rows: Vec<Vec<char>> = Vec::new();
    let mut cur: Vec<char> = Vec::new();
    for k in 0..words.len()
        invariant
            wv == view2(words@),
            (view2(rows@), cur@) == prose_rows(wv.take(k as int), width as nat),
    {
        assert(wv.take(k + 1).drop_last() =~= wv.take(k as int));
        let w = &words[k];
        if cur.len() > 0 && w.len() > width || (cur.len() > 0 && cur.len() > width - w.len()) {
            let ghost prev = view2(rows@);
            let t = crate::text::trim_end_index(&cur);
            rows.push(slice_chars(&cur, 0, t));
            assert(view2(rows@) =~= prev.push(trim_end_spec(cur@)));
            cur = slice_chars(w, 0, w.len());
            assert(cur@ =~= wv[k as int]);
        } else {
            extend_chars(&mut cur, w);
        }
    }
    assert(wv.take(words@.len() as int) =~= wv);
    if cur.len() > 0 {
        let ghost prev = view2(rows@);
        let t = crate::text::trim_end_index(&cur);
        rows.push(slice_chars(&cur, 0, t));
        assert(view2(rows@) =~= prev.push(trim_end_spec(cur@)));
    }
    if rows.len() == 0 {
        rows.push(Vec::new());
        assert(view2(rows@) =~= seq![Seq::<char>::empty()]);
    }
    let mut out: Vec<String> = Vec::new();
    for k in 0..rows.len()
        invariant
            crate::goal::strs(out@) =~= view2(rows@).take(k as int),
    {
        let ghost prev = crate::goal::strs(out@);
        out.push(string_of(&rows[k]));
        assert(crate::goal::strs(out@) =~= prev.push(view2(rows@)[k as int]));
    }
    assert(view2(rows@).take(rows@.len() as int) =~= view2(rows@));
    out
}

/// Whether a line opens or closes a code fence.
pub open spec fn is_fence(line: Seq<char>) -> bool {
    starts_with(trim_start_spec(line), "```"@)
}

/// Rows of markdown text: prose lines wrapped, fence lines and the lines
/// inside fences kept.
pub open spec fn md_rows(lines: Seq<Seq<char>>, width: nat) -> (Seq<Seq<char>>, bool)
    decreases lines.len(),
{
    if lines.len() == 0 {
        (seq![], false)
    } else {
        let (rows, in_fence) = md_rows(lines.drop_last(), width);
        let l = lines.last();
        if is_fence(l) {
            (rows.push(l), !in_fence)
        } else if in_fence {
            (rows.push(l), in_fence)
        } else {
            (rows + wrap_prose_spec(l, width), in_fence)
        }
    }
}

/// Wrap prose lines at a readable width, leaving code fences untouched.
pub fn md_wrap(text: &str, width: usize) -> (r: String)
    ensures
        r@ == join_with(md_rows(split_on(text@, '\n'), width as nat).0, '\n'),
{
    let lines = split_chars(&chars_of(text), '\n');
    let ghost lv = view2(lines@);
    let fence = chars_of("```");
    let mut rows: Vec<Vec<char>> = Vec::new();
    let mut in_fence = false;
    for k in 0..lines.len()
        invariant
            lv == view2(lines@),
            fence@ == "```"@,
            (view2(rows@), in_fence) == md_rows(lv.take(k as int), width as nat),
    {
        assert(lv.take(k + 1).drop_last() =~= lv.take(k as int));
        let l = &lines[k];
        let start = crate::text::trim_start_index(l);
        let tl = slice_chars(l, start, l.len());
        assert(tl@ =~= l@.skip(start as int));
        let ghost prev = view2(rows@);
        if starts_with_chars(&tl, &fence) {
            in_fence = !in_fence;
            let c = slice_chars(l, 0, l.len());
            assert(c@ =~= lv[k as int]);
            rows.push(c);
            assert(view2(rows@) =~= prev.push(lv[k as int]));
        } else if in_fence {
            let c = slice_chars(l, 0, l.len());
            assert(c@ =~= lv[k as int]);
            rows.push(c);
            assert(view2(rows@) =~= prev.push(lv[k as int]));
        } else {
            let wrapped = wrap_prose(string_of(l).as_str(), width);
            let ghost wv = crate::goal::strs(wrapped@);
            for j in 0..wrapped.len()
                invariant
                    wv == crate::goal::strs(wrapped@),
                    view2(rows@) =~= prev + wv.take(j as int),
            {
                let ghost p2 = view2(rows@);
                rows.push(chars_of(wrapped[j].as_str()));
                assert(view2(rows@) =~= p2.push(wv[j as int]));
            }
            assert(wv.take(wrapped@.len() as int) =~= wv);
        }
    }
    assert(lv.take(lines@.len() as int) =~= lv);
    string_of(&join_chars(&rows, '\n'))
}

/// The end of the run of decimal digits that starts at `i`.
pub open spec fn digits_end(s: Seq<char>, i: int) -> int
    decreases s.len() - i,
{
    if 0 <= i < s.len() && crate::text::is_digit(s[i]) {
        digits_end(s, i + 1)
    } else {
        i
    }
}

proof fn lemma_digits_end(s: Seq<char>, i: int)
    requires
        0 <= i <= s.len(),
    ensures
        i <= digits_end(s, i) <= s.len(),
        crate::text::all_digits(s.subrange(i, digits_end(s, i))),
    decreases s.len() - i,
{
    if i < s.len() && crate::text::is_digit(s[i]) {
        lemma_digits_end(s, i + 1);
        let e = digits_end(s, i);
        assert forall|k: int| 0 <= k < e - i implies crate::text::is_digit(#[trigger] s.subrange(i, e)[k]) by {
            if k > 0 {
                assert(s.subrange(i, e)[k] == s.subrange(i + 1, e)[k - 1]);
            }
        }
    } else {
        assert(s.subrange(i, i).len() == 0);
    }
}

/// The line number after `sign` in a hunk header's rest: the digits right
/// after the first `sign`, when there are some and they fit in `u32`.
pub open spec fn hunk_start_spec(rest: Seq<char>, sign: char) -> Option<nat> {
    match crate::text::find_spec(rest, seq![sign], 0) {
        None => None,
        Some(i) => {
            let d = rest.subrange(i + 1, digits_end(rest, i + 1));
            if d.len() > 0 && crate::text::digits_value(d) <= u32::MAX {
                Some(crate::text::digits_value(d))
            } else {
                None
            }
        },
    }
}

/// The start line after `sign` (`-` or `+`) in the rest of a hunk header.
pub fn hunk_start(rest: &str, sign: char) -> (r: Option<u32>)
    ensures
        r == (match hunk_start_spec(rest@, sign) {
            Some(v) => Some(v as u32),
            None => None::<u32>,
        }),
{
    let s = chars_of(rest);
    let mut pat: Vec<char> = Vec::new();
    pat.push(sign);
    assert(pat@ =~= seq![sign]);
    let n = s.len();
    proof {
        crate::text::lemma_find_spec(s@, pat@, 0);
    }
    let found = crate::text::find_first(&s, &pat, 0);
    let idx = match found {
        None => return None,
        Some(i) => i,
    };
    let start = idx + 1;
    let mut j = start;
    while j < s.len() && '0' <= s[j] && s[j] <= '9'
        invariant
            start <= j <= s@.len(),
            digits_end(s@, start as int) == digits_end(s@, j as int),
        decreases s.len() - j,
    {
        j += 1;
    }
    let d = slice_chars(&s, start, j);
    proof {
        lemma_digits_end(s@, start as int);
        assert(d@ == s@.subrange(start as int, digits_end(s@, start as int)));
        if d@.len() > 0 {
            assert(crate::text::is_digit(d@[0]));
        }
        assert(crate::text::all_digits(d@));
        assert(crate::text::find_spec(s@, seq![sign], 0) == Some(idx as int));
    }
    match crate::text::parse_usize(&d) {
        Some(v) => {
            if v <= 4294967295 {
                Some(v as u32)
            } else {
                None
            }
        },
        None => None,
    }
}

/// A parsed row of a unified diff: its line numbers in the old and new
/// file, its kind (`@` hunk header, `h` file header or other text, `-`, `+`,
/// or ` `), and its text (without the sign for `-`, `+` and ` ` rows).
pub struct DiffRow {
    pub old: Option<u32>,
    pub new: Option<u32>,
    pub kind: char,
    pub text: String,
}

pub struct DiffRowView {
    pub old: Option<u32>,
    pub new: Option<u32>,
    pub kind: char,
    pub text: Seq<char>,
}

impl View for DiffRow {
    type V = DiffRowView;

    open spec fn view(&self) -> DiffRowView {
        DiffRowView { old: self.old, new: self.new, kind: self.kind, text: self.text@ }
    }
}

pub open spec fn rows_view(v: Seq<DiffRow>) -> Seq<DiffRowView> {
    Seq::new(v.len(), |k: int| v[k]@)
}

/// Whether a line is a file header of a git diff.
pub open spec fn is_file_header(l: Seq<char>) -> bool {
    starts_with(l, "diff --git"@) || starts_with(l, "index "@) || starts_with(l, "--- "@)
        || starts_with(l, "+++ "@)
}

/// The rows of the first lines of a diff, and the old and new line numbers
/// that come next.
pub open spec fn diff_state(lines: Seq<Seq<char>>) -> (Seq<DiffRowView>, nat, nat)
    decreases lines.len(),
{
    if lines.len() == 0 {
        (seq![], 0, 0)
    } else {
        let (rows, o, n) = diff_state(lines.drop_last());
        let l = lines.last();
        if starts_with(l, "@@"@) {
            let rest = l.skip(2);
            let row = DiffRowView { old: None, new: None, kind: '@', text: l };
            match (hunk_start_spec(rest, '-'), hunk_start_spec(rest, '+')) {
                (Some(a), Some(c)) => (rows.push(row), a, c),
                _ => (rows.push(row), o, n),
            }
        } else if is_file_header(l) {
            (rows.push(DiffRowView { old: None, new: None, kind: 'h', text: l }), o, n)
        } else if l.len() > 0 && l[0] == '-' {
            (rows.push(DiffRowView { old: Some(o as u32), new: None, kind: '-', text: l.skip(1) }), o + 1, n)
        } else if l.len() > 0 && l[0] == '+' {
            (rows.push(DiffRowView { old: None, new: Some(n as u32), kind: '+', text: l.skip(1) }), o, n + 1)
        } else if l.len() > 0 && l[0] == ' ' {
            (
                rows.push(
                    DiffRowView { old: Some(o as u32), new: Some(n as u32), kind: ' ', text: l.skip(1) },
                ),
                o + 1,
                n + 1,
            )
        } else {
            (rows.push(DiffRowView { old: None, new: None, kind: 'h', text: l }), o, n)
        }
    }
}

/// The line numbers of a diff stay within `u32` throughout.
pub open spec fn diff_fits(lines: Seq<Seq<char>>) -> bool
    decreases lines.len(),
{
    lines.len() == 0 || (diff_fits(lines.drop_last()) && diff_state(lines).1 <= u32::MAX
        && diff_state(lines).2 <= u32::MAX)
}

proof fn lemma_diff_fits_prefix(lines: Seq<Seq<char>>, k: int)
    requires
        diff_fits(lines),
        0 <= k <= lines.len(),
    ensures
        diff_fits(lines.take(k)),
    decreases lines.len(),
{
    if k < lines.len() {
        lemma_diff_fits_prefix(lines.drop_last(), k);
        assert(lines.drop_last().take(k) =~= lines.take(k));
    } else {
        assert(lines.take(k) =~= lines);
    }
}

/// Rows of a unified diff, numbered from its hunk headers.
pub fn parse_unified_diff(body: &str) -> (r: Vec<DiffRow>)
    requires
        diff_fits(str_lines(body@)),
    ensures
        rows_view(r@) == diff_state(str_lines(body@)).0,
{
    let lines = str_lines_of(&chars_of(body));
    let ghost lv = view2(lines@);
    let mut rows: Vec<DiffRow> = Vec::new();
    let mut old_ln: u32 = 0;
    let mut new_ln: u32 = 0;
    let at = chars_of("@@");
    let h1 = chars_of("diff --git");
    let h2 = chars_of("index ");
    let h3 = chars_of("--- ");
    let h4 = chars_of("+++ ");
    for k in 0..lines.len()
        invariant
            lv == view2(lines@),
            lv == str_lines(body@),
            diff_fits(lv),
            at@ == "@@"@,
            h1@ == "diff --git"@,
            h2@ == "index "@,
            h3@ == "--- "@,
            h4@ == "+++ "@,
            (rows_view(rows@), old_ln as nat, new_ln as nat) == diff_state(lv.take(k as int)),
    {
        assert(lv.take(k + 1).drop_last() =~= lv.take(k as int));
        proof {
            lemma_diff_fits_prefix(lv, k + 1);
        }
        let l = &lines[k];
        assert(l@ == lv.take(k + 1).last());
        proof {
            reveal_strlit("@@");
        }
        let ghost prev = rows_view(rows@);
        let row;
        if starts_with_chars(l, &at) {
            let rest = string_of(&slice_chars(l, 2, l.len()));
            assert(rest@ =~= l@.skip(2));
            let a = hunk_start(rest.as_str(), '-');
            let c = hunk_start(rest.as_str(), '+');
            if let (Some(a), Some(c)) = (a, c) {
                old_ln = a;
                new_ln = c;
            }
            row = DiffRow { old: None, new: None, kind: '@', text: string_of(l) };
        } else if starts_with_chars(l, &h1) || starts_with_chars(l, &h2) || starts_with_chars(l, &h3)
            || starts_with_chars(l, &h4) {
            row = DiffRow { old: None, new: None, kind: 'h', text: string_of(l) };
        } else if l.len() > 0 && l[0] == '-' {
            let t = slice_chars(l, 1, l.len());
            assert(t@ =~= l@.skip(1));
            row = DiffRow { old: Some(old_ln), new: None, kind: '-', text: string_of(&t) };
            old_ln = old_ln + 1;
        } else if l.len() > 0 && l[0] == '+' {
            let t = slice_chars(l, 1, l.len());
            assert(t@ =~= l@.skip(1));
            row = DiffRow { old: None, new: Some(new_ln), kind: '+', text: string_of(&t) };
            new_ln = new_ln + 1;
        } else if l.len() > 0 && l[0] == ' ' {
            let t = slice_chars(l, 1, l.len());
            assert(t@ =~= l@.skip(1));
            row = DiffRow { old: Some(old_ln), new: Some(new_ln), kind: ' ', text: string_of(&t) };
            old_ln = old_ln + 1;
            new_ln = new_ln + 1;
        } else {
            row = DiffRow { old: None, new: None, kind: 'h', text: string_of(l) };
        }
        rows.push(row);
        assert(rows_view(rows@) =~= prev.push(row@));
    }
    assert(lv.take(lines@.len() as int) =~= lv);
    rows
}

/// The first line of `s`, or nothing.
pub open spec fn first_line(s: Seq<char>) -> Seq<char> {
    if str_lines(s).len() > 0 {
        str_lines(s)[0]
    } else {
        seq![]
    }
}

fn first_line_of(lines: &Vec<Vec<char>>) -> (r: Vec<char>)
    ensures
        r@ == (if lines@.len() > 0 {
            lines@[0]@
        } else {
            seq![]
        }),
{
    if lines.len() > 0 {
        slice_chars(&lines[0], 0, lines[0].len())
    } else {
        Vec::new()
    }
}

/// A grep output line `path:line:text`: its second `:`-separated field is a
/// line number.
pub open spec fn grep_hit(l: Seq<char>) -> bool {
    let parts = split_on(l, ':');
    parts.len() >= 2 && crate::text::parse_usize_spec(parts[1]) is Some
}

pub open spec fn count_grep_hits(ls: Seq<Seq<char>>) -> nat
    decreases ls.len(),
{
    if ls.len() == 0 {
        0
    } else {
        count_grep_hits(ls.drop_last()) + if grep_hit(ls.last()) {
            1nat
        } else {
            0nat
        }
    }
}

/// Lines of numbered file content hold ` | `.
pub open spec fn count_numbered(ls: Seq<Seq<char>>) -> nat
    decreases ls.len(),
{
    if ls.len() == 0 {
        0
    } else {
        count_numbered(ls.drop_last()) + if crate::text::contains(ls.last(), " | "@) {
            1nat
        } else {
            0nat
        }
    }
}

/// The first word that reads as a number.
pub open spec fn first_number(ts: Seq<Seq<char>>) -> Option<Seq<char>>
    decreases ts.len(),
{
    if ts.len() == 0 {
        None
    } else if crate::text::parse_usize_spec(ts[0]) is Some {
        Some(ts[0])
    } else {
        first_number(ts.drop_first())
    }
}

/// Summary of shell output: the number of passed tests, a failing exit
/// code (nothing for exit code 0), or the first line.
pub open spec fn shell_summary(out: Seq<char>) -> Option<Seq<char>> {
    match crate::text::find_spec(out, "test result: ok."@, 0) {
        Some(i) => Some(
            match first_number(ws_tokens(out.skip(i))) {
                Some(p) => p + " passed"@,
                None => "tests passed"@,
            },
        ),
        None => match rfind_spec(out, "exit code: "@, out.len() as int) {
            Some(i) => {
                let code = trim_spec(out.skip(i + 11));
                if code == "0"@ {
                    None
                } else {
                    Some("exit "@ + code)
                }
            },
            None => Some(truncate_spec(first_line(out), 60)),
        },
    }
}

/// The one-line summary shown under a collapsed tool block.
pub open spec fn tool_summary_spec(kind: ToolKind, output: Seq<char>) -> Option<Seq<char>> {
    let out = trim_spec(output);
    let ls = str_lines(out);
    if out.len() == 0 {
        None
    } else {
        match kind {
            ToolKind::Grep => Some(decimal(count_grep_hits(ls)) + " matches"@),
            ToolKind::Read => Some(decimal(count_numbered(ls)) + " lines"@),
            ToolKind::List => {
                let first = trim_spec(first_line(out));
                if first.len() == 0 {
                    Some(decimal(ls.len()) + " lines"@)
                } else {
                    Some(first)
                }
            },
            ToolKind::Shell => shell_summary(out),
            ToolKind::Write | ToolKind::Edit => Some(truncate_spec(first_line(out), 80)),
            ToolKind::Git => if ls.len() <= 1 {
                Some(truncate_spec(out, 60))
            } else {
                Some(decimal(ls.len()) + " lines"@)
            },
            _ => if ls.len() <= 1 {
                None
            } else {
                Some(decimal(ls.len()) + " lines"@)
            },
        }
    }
}

pub open spec fn opt_view(r: Option<String>) -> Option<Seq<char>> {
    match r {
        Some(s) => Some(s@),
        None => None,
    }
}

fn count_grep_hits_of(ls: &Vec<Vec<char>>) -> (r: usize)
    ensures
        r == count_grep_hits(view2(ls@)),
{
    let mut n: usize = 0;
    for k in 0..ls.len()
        invariant
            n == count_grep_hits(view2(ls@).take(k as int)),
            n <= k,
    {
        assert(view2(ls@).take(k + 1).drop_last() =~= view2(ls@).take(k as int));
        let parts = split_chars(&ls[k], ':');
        if parts.len() >= 2 && crate::text::parse_usize(&parts[1]).is_some() {
            n += 1;
        }
    }
    assert(view2(ls@).take(ls@.len() as int) =~= view2(ls@));
    n
}

fn count_numbered_of(ls: &Vec<Vec<char>>) -> (r: usize)
    ensures
        r == count_numbered(view2(ls@)),
{
    let mut n: usize = 0;
    for k in 0..ls.len()
        invariant
            n == count_numbered(view2(ls@).take(k as int)),
            n <= k,
    {
        assert(view2(ls@).take(k + 1).drop_last() =~= view2(ls@).take(k as int));
        if crate::text::contains_str(&ls[k], " | ") {
            n += 1;
        }
    }
    assert(view2(ls@).take(ls@.len() as int) =~= view2(ls@));
    n
}

fn first_number_of(ts: &Vec<Vec<char>>) -> (r: Option<Vec<char>>)
    ensures
        match r {
            Some(p) => first_number(view2(ts@)) == Some(p@),
            None => first_number(view2(ts@)) is None,
        },
{
    assert(view2(ts@).skip(0) =~= view2(ts@));
    for k in 0..ts.len()
        invariant
            first_number(view2(ts@)) == first_number(view2(ts@).skip(k as int)),
    {
        let ghost rest = view2(ts@).skip(k as int);
        assert(rest[0] == ts@[k as int]@);
        assert(rest.drop_first() =~= view2(ts@).skip(k + 1));
        if crate::text::parse_usize(&ts[k]).is_some() {
            return Some(slice_chars(&ts[k], 0, ts[k].len()));
        }
    }
    assert(view2(ts@).skip(ts@.len() as int).len() == 0);
    None
}

/// `<n><suffix>`.
fn count_text(n: usize, suffix: &str) -> (r: String)
    ensures
        r@ == decimal(n as nat) + suffix@,
{
    let mut out: Vec<char> = Vec::new();
    push_decimal(&mut out, n);
    push_str_chars(&mut out, suffix);
    string_of(&out)
}

fn shell_summary_of(out: &Vec<char>) -> (r: Option<String>)
    ensures
        opt_view(r) == shell_summary(out@),
{
    let marker = chars_of("test result: ok.");
    proof {
        crate::text::lemma_find_spec(out@, marker@, 0);
    }
    let n = out.len();
    match crate::text::find_first(out, &marker, 0) {
        Some(i) => {
            let rest = slice_chars(out, i, out.len());
            assert(rest@ =~= out@.skip(i as int));
            let ts = ws_tokens_of(&rest);
            match first_number_of(&ts) {
                Some(p) => {
                    let mut t = p;
                    push_str_chars(&mut t, " passed");
                    Some(string_of(&t))
                },
                None => Some(String::from_str("tests passed")),
            }
        },
        None => {
            let ec = chars_of("exit code: ");
            proof {
                reveal_strlit("exit code: ");
                lemma_rfind_spec(out@, ec@, out@.len() as int);
            }
            match rfind_chars(out, &ec) {
                Some(i) => {
                    let tail = slice_chars(out, i + 11, out.len());
                    assert(tail@ =~= out@.skip(i + 11));
                    let code = trim_chars(&tail);
                    if eq_str(&code, "0") {
                        None
                    } else {
                        let mut t = chars_of("exit ");
                        extend_chars(&mut t, &code);
                        Some(string_of(&t))
                    }
                },
                None => {
                    let ls = str_lines_of(out);
                    let f = first_line_of(&ls);
                    Some(truncate(string_of(&f).as_str(), 60))
                },
            }
        },
    }
}

/// The one-line summary of a tool block's output, if it has one.
pub fn tool_summary(tb: &crate::tui::app::ToolBlock) -> (r: Option<String>)
    ensures
        opt_view(r) == tool_summary_spec(tb.kind, tb.output@),
{
    let out = trim_chars(&chars_of(tb.output.as_str()));
    if out.len() == 0 {
        return None;
    }
    let ls = str_lines_of(&out);
    let n = ls.len();
    match tb.kind {
        ToolKind::Grep => Some(count_text(count_grep_hits_of(&ls), " matches")),
        ToolKind::Read => Some(count_text(count_numbered_of(&ls), " lines")),
        ToolKind::List => {
            let first = trim_chars(&first_line_of(&ls));
            if first.len() == 0 {
                Some(count_text(n, " lines"))
            } else {
                Some(string_of(&first))
            }
        },
        ToolKind::Shell => shell_summary_of(&out),
        ToolKind::Write | ToolKind::Edit => {
            let f = first_line_of(&ls);
            Some(truncate(string_of(&f).as_str(), 80))
        },
        ToolKind::Git => if n <= 1 {
            Some(truncate(string_of(&out).as_str(), 60))
        } else {
            Some(count_text(n, " lines"))
        },
        _ => if n <= 1 {
            None
        } else {
            Some(count_text(n, " lines"))
        },
    }
}

/// The state of word wrapping after some grapheme clusters: the finished
/// rows, the row being filled, its width, and where in it the last run of
/// spaces ended.
pub struct WrapState {
    pub rows: Seq<Seq<char>>,
    pub cur: Seq<char>,
    pub w: nat,
    pub space: Option<int>,
}

/// Word wrapping at `width` columns: blank clusters always join the row;
/// a cluster that would overflow it breaks the row after its last space
/// (the rest moves down), or, with no space in it, ends a non-empty row.
pub open spec fn wrap_state(gs: Seq<Seq<char>>, width: nat) -> WrapState
    decreases gs.len(),
{
    if gs.len() == 0 {
        WrapState { rows: seq![], cur: seq![], w: 0, space: None }
    } else {
        let st = wrap_state(gs.drop_last(), width);
        let g = gs.last();
        let gw = display_width(g);
        if blank(g) {
            WrapState { rows: st.rows, cur: st.cur + g, w: st.w + gw, space: Some((st.cur + g).len() as int) }
        } else {
            let st2 = if st.w + gw > width {
                match st.space {
                    Some(bs) => WrapState {
                        rows: st.rows.push(st.cur.take(bs)),
                        cur: st.cur.skip(bs),
                        w: display_width(st.cur.skip(bs)),
                        space: None,
                    },
                    None => if st.cur.len() > 0 {
                        WrapState { rows: st.rows.push(st.cur), cur: seq![], w: 0, space: None }
                    } else {
                        st
                    },
                }
            } else {
                st
            };
            WrapState { rows: st2.rows, cur: st2.cur + g, w: st2.w + gw, space: st2.space }
        }
    }
}

proof fn lemma_wrap_space(gs: Seq<Seq<char>>, width: nat)
    ensures
        wrap_state(gs, width).space matches Some(b) ==> 0 <= b <= wrap_state(gs, width).cur.len(),
    decreases gs.len(),
{
    if gs.len() > 0 {
        lemma_wrap_space(gs.drop_last(), width);
    }
}

/// Wrapping only cuts: the finished rows and the row being filled, put
/// together, are the clusters taken in so far.
pub proof fn law_wrap_keeps_text(gs: Seq<Seq<char>>, width: nat)
    ensures
        wrap_state(gs, width).rows.flatten() + wrap_state(gs, width).cur == gs.flatten(),
    decreases gs.len(),
{
    broadcast use Seq::lemma_flatten_push;
    if gs.len() > 0 {
        law_wrap_keeps_text(gs.drop_last(), width);
        lemma_wrap_space(gs.drop_last(), width);
        let st = wrap_state(gs.drop_last(), width);
        let g = gs.last();
        assert(gs =~= gs.drop_last().push(g));
        assert(gs.flatten() == gs.drop_last().flatten() + g);
        let gw = display_width(g);
        if !blank(g) && st.w + gw > width {
            match st.space {
                Some(bs) => {
                    assert(st.cur =~= st.cur.take(bs) + st.cur.skip(bs));
                    assert(st.rows.push(st.cur.take(bs)).flatten() == st.rows.flatten() + st.cur.take(bs));
                    assert(st.rows.flatten() + st.cur.take(bs) + (st.cur.skip(bs) + g) =~= st.rows.flatten()
                        + st.cur + g);
                },
                None => {
                    if st.cur.len() > 0 {
                        assert(st.rows.push(st.cur).flatten() == st.rows.flatten() + st.cur);
                        assert(st.rows.flatten() + st.cur + (Seq::<char>::empty() + g) =~= st.rows.flatten() + st.cur
                            + g);
                    } else {
                        assert(st.rows.flatten() + (st.cur + g) =~= st.rows.flatten() + st.cur + g);
                    }
                },
            }
        } else {
            assert(st.rows.flatten() + (st.cur + g) =~= st.rows.flatten() + st.cur + g);
        }
    } else {
        assert(gs.flatten() =~= Seq::<char>::empty());
        assert(Seq::<Seq<char>>::empty().flatten() =~= Seq::<char>::empty());
    }
}

/// The rows of `text` wrapped at `width` columns (at least one).
pub open spec fn wrap_text_spec(text: Seq<char>, width: nat) -> Seq<Seq<char>> {
    let w: nat = if width < 1 {
        1
    } else {
        width
    };
    let st = wrap_state(grapheme_clusters(text), w);
    let rows = if st.cur.len() > 0 {
        st.rows.push(st.cur)
    } else {
        st.rows
    };
    if rows.len() == 0 {
        seq![seq![]]
    } else {
        rows
    }
}

/// Wrap a plain text into segments that fit `width` columns: word-wrap at
/// spaces and hard-break tokens longer than the width.
pub fn wrap_text(text: &str, width: usize) -> (r: Vec<String>)
    ensures
        crate::goal::strs(r@) == wrap_text_spec(text@, width as nat),
        crate::goal::strs(r@).flatten() == text@,
{
    let width = if width < 1 {
        1
    } else {
        width
    };
    let gs = graphemes_of(&chars_of(text));
    let ghost gv = view2(gs@);
    let mut rows: Vec<Vec<char>> = Vec::new();
    let mut cur: Vec<char> = Vec::new();
    let mut cur_w: usize = 0;
    let mut big = false;
    let mut space: Option<usize> = None;
    for k in 0..gs.len()
        invariant
            gv == view2(gs@),
            gv == grapheme_clusters(text@),
            width >= 1,
            view2(rows@) == wrap_state(gv.take(k as int), width as nat).rows,
            cur@ == wrap_state(gv.take(k as int), width as nat).cur,
            big ==> wrap_state(gv.take(k as int), width as nat).w > usize::MAX,
            !big ==> cur_w == wrap_state(gv.take(k as int), width as nat).w,
            match space {
                Some(b) => wrap_state(gv.take(k as int), width as nat).space == Some(b as int),
                None => wrap_state(gv.take(k as int), width as nat).space is None,
            },
    {
        let ghost st = wrap_state(gv.take(k as int), width as nat);
        assert(gv.take(k + 1).drop_last() =~= gv.take(k as int));
        proof {
            lemma_wrap_space(gv.take(k as int), width as nat);
        }
        let g = &gs[k];
        assert(g@ == gv.take(k + 1).last());
        let gw = width_of(g);
        let is_space = trim_chars(g).len() == 0;
        if is_space {
            extend_chars(&mut cur, g);
            if big || cur_w > usize::MAX - gw {
                big = true;
            } else {
                cur_w = cur_w + gw;
            }
            space = Some(cur.len());
        } else {
            let over = big || gw > width || cur_w > width - gw;
            if over {
                match space {
                    Some(bs) => {
                        let ghost prev = view2(rows@);
                        let head = slice_chars(&cur, 0, bs);
                        let rest = slice_chars(&cur, bs, cur.len());
                        assert(head@ =~= st.cur.take(bs as int));
                        assert(rest@ =~= st.cur.skip(bs as int));
                        rows.push(head);
                        assert(view2(rows@) =~= prev.push(st.cur.take(bs as int)));
                        cur = rest;
                        space = None;
                        cur_w = width_of(&cur);
                        big = false;
                    },
                    None => {
                        if cur.len() > 0 {
                            let ghost prev = view2(rows@);
                            let full = slice_chars(&cur, 0, cur.len());
                            assert(full@ =~= st.cur);
                            rows.push(full);
                            assert(view2(rows@) =~= prev.push(st.cur));
                            cur = Vec::new();
                            cur_w = 0;
                            big = false;
                        }
                    },
                }
            }
            extend_chars(&mut cur, g);
            if big || cur_w > usize::MAX - gw {
                big = true;
            } else {
                cur_w = cur_w + gw;
            }
        }
    }
    assert(gv.take(gs@.len() as int) =~= gv);
    if cur.len() > 0 {
        let ghost prev = view2(rows@);
        let full = slice_chars(&cur, 0, cur.len());
        assert(full@ =~= cur@);
        rows.push(full);
        assert(view2(rows@) =~= prev.push(cur@));
    }
    if rows.len() == 0 {
        rows.push(Vec::new());
        assert(view2(rows@) =~= seq![Seq::<char>::empty()]);
    }
    let mut out: Vec<String> = Vec::new();
    for k in 0..rows.len()
        invariant
            crate::goal::strs(out@) =~= view2(rows@).take(k as int),
    {
        let ghost prev = crate::goal::strs(out@);
        out.push(string_of(&rows[k]));
        assert(crate::goal::strs(out@) =~= prev.push(view2(rows@)[k as int]));
    }
    assert(view2(rows@).take(rows@.len() as int) =~= view2(rows@));
    proof {
        broadcast use Seq::lemma_flatten_push;
        let st = wrap_state(gv, width as nat);
        law_wrap_keeps_text(gv, width as nat);
        let fin = if st.cur.len() > 0 {
            st.rows.push(st.cur)
        } else {
            st.rows
        };
        assert(fin.flatten() == text@) by {
            if st.cur.len() > 0 {
                assert(st.rows.push(st.cur).flatten() == st.rows.flatten() + st.cur);
            } else {
                assert(st.rows.flatten() + st.cur =~= st.rows.flatten());
            }
        }
        if fin.len() == 0 {
            assert(fin.flatten() =~= Seq::<char>::empty());
            assert(seq![Seq::<char>::empty()].flatten() =~= Seq::<char>::empty()) by {
                seq![Seq::<char>::empty()].lemma_flatten_one_element();
            }
        }
    }
    out
}

/// Number of terminal rows a text occupies when wrapped at `width`.
pub fn wrapped_rows(text: &str, width: usize) -> (r: usize)
    ensures
        r == wrap_text_spec(text@, width as nat).len(),
{
    wrap_text(text, width).len()
}

/// The most rows the composer grows to.
pub const MAX_COMPOSER_LINES: u16 = 8;

/// The text of editor line `i` as the composer shows it: the first line
/// behind the `› ` prompt.
pub open spec fn composer_text(l: Seq<Seq<Seq<char>>>, i: int) -> Seq<char> {
    if i == 0 {
        "› "@ + line_text(l[0])
    } else {
        line_text(l[i])
    }
}

/// Wrapped rows of the first `n` lines of the composer.
pub open spec fn composer_rows(l: Seq<Seq<Seq<char>>>, width: nat, n: nat) -> nat
    decreases n,
{
    if n == 0 {
        0
    } else {
        composer_rows(l, width, (n - 1) as nat) + wrap_text_spec(composer_text(l, n - 1), width).len()
    }
}

/// The wrapped row count of all lines, between 1 and `MAX_COMPOSER_LINES`.
pub open spec fn composer_height_spec(l: Seq<Seq<Seq<char>>>, width: nat) -> nat {
    let r = composer_rows(l, width, l.len());
    if r < 1 {
        1
    } else if r > MAX_COMPOSER_LINES {
        MAX_COMPOSER_LINES as nat
    } else {
        r
    }
}

/// Height the composer should occupy: the wrapped row count, capped.
/// Row 0 includes the `› ` prefix.
pub fn composer_height(ed: &TextEditor, width: usize) -> (r: u16)
    ensures
        r == composer_height_spec(ed@.lines, width as nat),
{
    let mut rows: usize = 0;
    let n = ed.line_count();
    for li in 0..n
        invariant
            n == ed@.lines.len(),
            rows == (if composer_rows(ed@.lines, width as nat, li as nat) > usize::MAX {
                usize::MAX as nat
            } else {
                composer_rows(ed@.lines, width as nat, li as nat)
            }),
    {
        let gs = ed.line_graphemes(li);
        let mut t: Vec<char> = Vec::new();
        if li == 0 {
            push_str_chars(&mut t, "› ");
        }
        let ghost base = t@;
        let ghost line = ed@.lines[li as int];
        for j in 0..gs.len()
            invariant
                gs@.len() == line.len(),
                forall|i: int| 0 <= i < gs@.len() ==> (#[trigger] gs@[i])@ == line[i],
                t@ == base + line.take(j as int).flatten(),
        {
            let ghost pre = t@;
            push_str_chars(&mut t, gs[j].as_str());
            proof {
                assert(line.take(j + 1) =~= line.take(j as int).push(line[j as int]));
                line.take(j as int).lemma_flatten_push(line[j as int]);
            }
        }
        assert(line.take(gs@.len() as int) =~= line);
        assert(t@ == composer_text(ed@.lines, li as int));
        let k = wrapped_rows(string_of(&t).as_str(), width);
        if rows > usize::MAX - k {
            rows = usize::MAX;
        } else {
            rows = rows + k;
        }
    }
    if rows < 1 {
        1
    } else if rows > 8 {
        MAX_COMPOSER_LINES
    } else {
        rows as u16
    }
}

/// The characters of `s` from `i` on (with `w` columns before them) that
/// fit in `m` columns.
pub open spec fn fit_prefix(s: Seq<char>, m: nat, i: nat, w: nat) -> Seq<char>
    decreases s.len() - i,
{
    if i >= s.len() || w + crate::tui::select::cw(s[i as int]) > m {
        seq![]
    } else {
        seq![s[i as int]] + fit_prefix(s, m, i + 1, w + crate::tui::select::cw(s[i as int]))
    }
}

/// `s` when it fits in `max` columns; else as many leading characters as
/// fit in `max - 1` columns, and `…`.
pub open spec fn truncate_width_spec(s: Seq<char>, max: nat) -> Seq<char> {
    if display_width(s) <= max {
        s
    } else {
        fit_prefix(s, if max >= 1 { (max - 1) as nat } else { 0 }, 0, 0).push('…')
    }
}

/// Truncate `s` to `max` display columns, marking the cut with `…`.
pub fn truncate_width(s: &str, max: usize) -> (r: String)
    ensures
        r@ == truncate_width_spec(s@, max as nat),
{
    let v = chars_of(s);
    if width_of(&v) <= max {
        return string_of(&v);
    }
    let m = if max >= 1 {
        max - 1
    } else {
        0
    };
    let mut out: Vec<char> = Vec::new();
    let mut w: usize = 0;
    let mut i: usize = 0;
    let mut full = false;
    while i < v.len() && !full
        invariant
            v@ == s@,
            i <= v@.len(),
            w <= m,
            out@ + fit_prefix(v@, m as nat, i as nat, w as nat) == fit_prefix(v@, m as nat, 0, 0),
            full ==> fit_prefix(v@, m as nat, i as nat, w as nat) == Seq::<char>::empty(),
        decreases v.len() - i + (if full { 0int } else { 1int }),
    {
        let c = crate::tui::select::cw_of(v[i]);
        if c > m - w {
            full = true;
        } else {
            let ghost prev = out@;
            out.push(v[i]);
            assert(prev + fit_prefix(v@, m as nat, i as nat, w as nat) =~= out@ + fit_prefix(
                v@,
                m as nat,
                (i + 1) as nat,
                (w + c) as nat,
            ));
            w = w + c;
            i += 1;
        }
    }
    proof {
        assert(fit_prefix(v@, m as nat, i as nat, w as nat) == Seq::<char>::empty());
        assert(out@ + Seq::<char>::empty() =~= out@);
    }
    out.push('…');
    string_of(&out)
}

/// A path for display: the home directory shown as `~`, and, when longer
/// than `max` characters, its middle cut out for `…`.
pub open spec fn short_path_spec(p: Seq<char>, home: Option<Seq<char>>, max: nat) -> Seq<char> {
    let q = match home {
        Some(h) => if starts_with(p, h) && p.len() > h.len() {
            seq!['~'] + p.skip(h.len() as int)
        } else {
            p
        },
        None => p,
    };
    if q.len() <= max {
        q
    } else {
        let keep: nat = if max >= 1 { (max - 1) as nat } else { 0 };
        let left = keep / 2;
        q.take(left as int).push('…') + q.skip(q.len() - (keep - left))
    }
}

/// Shorten a path for display (`home` is the user's home directory).
pub fn short_path(p: &str, home: Option<&str>, max: usize) -> (r: String)
    ensures
        r@ == short_path_spec(
            p@,
            match home {
                Some(h) => Some(h@),
                None => None,
            },
            max as nat,
        ),
{
    let pv = chars_of(p);
    let q = match home {
        Some(h) => {
            let hv = chars_of(h);
            if starts_with_chars(&pv, &hv) && pv.len() > hv.len() {
                let mut t: Vec<char> = Vec::new();
                t.push('~');
                let rest = slice_chars(&pv, hv.len(), pv.len());
                assert(rest@ =~= p@.skip(h@.len() as int));
                extend_chars(&mut t, &rest);
                assert(t@ =~= seq!['~'] + p@.skip(h@.len() as int));
                t
            } else {
                pv
            }
        },
        None => pv,
    };
    if q.len() <= max {
        return string_of(&q);
    }
    let keep = if max >= 1 {
        max - 1
    } else {
        0
    };
    let left = keep / 2;
    let mut out = slice_chars(&q, 0, left);
    out.push('…');
    let tail = slice_chars(&q, q.len() - (keep - left), q.len());
    extend_chars(&mut out, &tail);
    assert(out@ =~= q@.take(left as int).push('…') + q@.skip(q@.len() - (keep - left)));
    string_of(&out)
}

} // verus!
