//! `@file` mentions in composer text. Offsets are UTF-8 byte offsets.
use vstd::prelude::*;

use crate::text::{
    push_str_chars, alphanumeric, byte_len, byte_offsets, chars_of, is_alphanumeric, is_whitespace, is_ws,
    lemma_byte_len_concat, slice_chars, str_byte_len, string_of, utf8_len,
};

verus! {

/// A structurally-represented file mention parsed from composer text.
#[derive(Debug, Clone, PartialEq, Eq)]
pub struct FileMention {
    /// Byte offset of the `@` in the text.
    pub start: usize,
    /// Byte offset just after the mention text.
    pub end: usize,
    /// The mention text after `@` (query while typing, resolved path after select).
    pub path: String,
}

impl FileMention {
    pub open spec fn view_tuple(self) -> (nat, nat, Seq<char>) {
        (self.start as nat, self.end as nat, self.path@)
    }
}

/// Characters that may appear in a mentioned path.
pub open spec fn path_char(c: char) -> bool {
    !is_ws(c) && !(c == '(' || c == ')' || c == ',' || c == '"' || c == '\'' || c == '`' || c
        == '!' || c == '?' || c == ';' || c == ':' || c == '|' || c == '<' || c == '>')
}

/// Byte offset of character index `i` of `t`.
pub open spec fn boff(t: Seq<char>, i: int) -> nat {
    byte_len(t.take(i))
}

/// The `@` at character index `i` starts a mention: it is at the start of the
/// text or after a character that is not alphanumeric (so `user@host` is not one).
pub open spec fn mention_start(t: Seq<char>, i: int) -> bool {
    0 <= i < t.len() && t[i] == '@' && (i == 0 || !alphanumeric(t[i - 1]))
}

/// The byte at offset `idx` is an `@` that starts a mention.
pub open spec fn mention_at_byte(t: Seq<char>, idx: nat) -> bool {
    exists|i: int| mention_start(t, i) && boff(t, i) == idx
}

/// The last `@` before character index `j`.
pub open spec fn last_at(t: Seq<char>, j: int) -> Option<int>
    decreases j,
{
    if j <= 0 {
        None
    } else if t[j - 1] == '@' {
        Some(j - 1)
    } else {
        last_at(t, j - 1)
    }
}

/// The mention being typed when the cursor is at character index `j`:
/// `(start, end, path)` in bytes.
pub open spec fn mention_before(t: Seq<char>, j: int) -> Option<(nat, nat, Seq<char>)> {
    match last_at(t, j) {
        None => None,
        Some(a) => if mention_start(t, a) && forall|k: int| a < k < j ==> path_char(t[k]) {
            Some((boff(t, a), boff(t, j), t.subrange(a + 1, j)))
        } else {
            None
        },
    }
}

/// The cursor clamped to the end of the text, in bytes.
pub open spec fn clamp_cursor(t: Seq<char>, cursor: usize) -> nat {
    if cursor <= byte_len(t) {
        cursor as nat
    } else {
        byte_len(t)
    }
}

/// End of the run of path characters starting at `k`.
pub open spec fn path_end(t: Seq<char>, k: int) -> int
    decreases t.len() - k,
{
    if k < 0 || k >= t.len() || !path_char(t[k]) {
        k
    } else {
        path_end(t, k + 1)
    }
}

/// Every mention from character index `i` on, left to right.
pub open spec fn mentions_from(t: Seq<char>, i: int) -> Seq<(nat, nat, Seq<char>)>
    decreases t.len() - i,
{
    if i < 0 || i >= t.len() {
        seq![]
    } else if mention_start(t, i) {
        let e = path_end(t, i + 1);
        proof {
            lemma_path_end_bounds(t, i + 1);
        }
        seq![(boff(t, i), boff(t, e), t.subrange(i + 1, e))] + mentions_from(t, e)
    } else {
        mentions_from(t, i + 1)
    }
}

proof fn lemma_boff_strict(t: Seq<char>, i: int, k: int)
    requires
        0 <= i < k <= t.len(),
    ensures
        boff(t, i) < boff(t, k),
    decreases k - i,
{
    assert(t.take(k).drop_last() =~= t.take(k - 1));
    if i < k - 1 {
        lemma_boff_strict(t, i, k - 1);
    }
}

/// Two character counts with the same byte offset are the same.
proof fn lemma_boff_unique(t: Seq<char>, i: int, k: int)
    requires
        0 <= i <= t.len(),
        0 <= k <= t.len(),
        boff(t, i) == boff(t, k),
    ensures
        i == k,
{
    if i < k {
        lemma_boff_strict(t, i, k);
    } else if k < i {
        lemma_boff_strict(t, k, i);
    }
}

pub proof fn lemma_path_end_bounds(t: Seq<char>, k: int)
    requires
        0 <= k <= t.len(),
    ensures
        k <= path_end(t, k) <= t.len(),
        forall|m: int| k <= m < path_end(t, k) ==> path_char(t[m]),
        path_end(t, k) < t.len() ==> !path_char(t[path_end(t, k)]),
    decreases t.len() - k,
{
    if k < t.len() && path_char(t[k]) {
        lemma_path_end_bounds(t, k + 1);
    }
}

/// A character that ends a mentioned path: whitespace or one of
/// ( ) , " ' ` ! ? ; : | < >.
pub open spec fn path_stop(c: char) -> bool {
    is_ws(c) || c == '(' || c == ')' || c == ',' || c == '"' || c == '\'' || c == '`' || c == '!' || c == '?'
        || c == ';' || c == ':' || c == '|' || c == '<' || c == '>'
}

/// The mention that starts at `i` has the shape of one.
proof fn lemma_head_shape(t: Seq<char>, i: int)
    requires
        0 <= i,
        mention_start(t, i),
    ensures
        mention_shape(
            t,
            i,
            (boff(t, i), boff(t, path_end(t, i + 1)), t.subrange(i + 1, path_end(t, i + 1))),
        ),
{
    let e = path_end(t, i + 1);
    lemma_path_end_bounds(t, i + 1);
    let head = (boff(t, i), boff(t, e), t.subrange(i + 1, e));
    assert(head.2.len() == e - i - 1);
    assert forall|j: int| 0 <= j < head.2.len() implies !path_stop(#[trigger] head.2[j]) by {
        assert(head.2[j] == t[i + 1 + j]);
        assert(path_char(t[i + 1 + j]));
    }
    assert(e < t.len() ==> !path_char(t[e]));
}

/// Nothing starts a mention in `[i, a)`: the mentions from `i` on are those
/// from `a` on.
proof fn lemma_mentions_skip(t: Seq<char>, i: int, a: int)
    requires
        0 <= i <= a,
        forall|b: int| i <= b < a ==> !mention_start(t, b),
    ensures
        mentions_from(t, i) == mentions_from(t, a),
    decreases a - i,
{
    if i < a {
        lemma_mentions_skip(t, i + 1, a);
        if i >= t.len() {
            assert(mentions_from(t, i) =~= mentions_from(t, a));
        }
    }
}

/// No `@` that starts a mention is missed: the first one in the text gives
/// the first parsed mention.
pub proof fn law_first_mention_found(t: Seq<char>, a: int)
    requires
        mention_start(t, a),
        forall|b: int| 0 <= b < a ==> !mention_start(t, b),
    ensures
        mentions_from(t, 0).len() > 0,
        mention_shape(t, a, mentions_from(t, 0)[0]),
{
    lemma_mentions_skip(t, 0, a);
    lemma_path_end_bounds(t, a + 1);
    lemma_head_shape(t, a);
}

/// Each mention found from index `i` on is an `@` at some index `a >= i`,
/// followed by its path and then by the end of the text or a stopping
/// character; the path holds no stopping character, and the byte range runs
/// from the `@` to the end of the path.
proof fn lemma_mentions_shape(t: Seq<char>, i: int)
    requires
        0 <= i,
    ensures
        forall|k: int|
            0 <= k < mentions_from(t, i).len() ==> mention_after(t, i, #[trigger] mentions_from(t, i)[k]),
    decreases t.len() - i,
{
    if i < t.len() {
        if mention_start(t, i) {
            let e = path_end(t, i + 1);
            lemma_path_end_bounds(t, i + 1);
            lemma_mentions_shape(t, e);
            let m = mentions_from(t, i);
            let head = (boff(t, i), boff(t, e), t.subrange(i + 1, e));
            assert(m == seq![head] + mentions_from(t, e));
            assert forall|k: int| 0 <= k < m.len() implies mention_after(t, i, #[trigger] m[k]) by {
                if k == 0 {
                    lemma_head_shape(t, i);
                    assert(m[k] == head);
                } else {
                    let mk = mentions_from(t, e)[k - 1];
                    assert(m[k] == mk);
                    assert(mention_after(t, e, mk));
                    let a = choose|a: int| e <= a && mention_shape(t, a, mk);
                    assert(mention_shape(t, a, mk));
                }
            }
        } else {
            lemma_mentions_shape(t, i + 1);
            assert forall|k: int| 0 <= k < mentions_from(t, i).len() implies mention_after(t, i, #[trigger] mentions_from(t, i)[k]) by {
                let mk = mentions_from(t, i + 1)[k];
                assert(mention_after(t, i + 1, mk));
                let a = choose|a: int| i + 1 <= a && mention_shape(t, a, mk);
                assert(mention_shape(t, a, mk));
            }
        }
    }
}

/// An `@` at index `a`, at the start of the text or after a character that
/// is not alphanumeric, with the mention `m` after it: the path follows the
/// `@`, holds no stopping character, and ends the text or stops at one.
pub open spec fn mention_shape(t: Seq<char>, a: int, m: (nat, nat, Seq<char>)) -> bool {
    let end = a + 1 + m.2.len();
    &&& 0 <= a
    &&& end <= t.len()
    &&& t[a] == '@'
    &&& (a == 0 || !alphanumeric(t[a - 1]))
    &&& m.2 == t.subrange(a + 1, end)
    &&& m.0 == boff(t, a)
    &&& m.1 == boff(t, end)
    &&& forall|j: int| 0 <= j < m.2.len() ==> !path_stop(#[trigger] m.2[j])
    &&& (end == t.len() || path_stop(t[end]))
}

/// `m` is a mention whose `@` stands at index `i` or later.
pub open spec fn mention_after(t: Seq<char>, i: int, m: (nat, nat, Seq<char>)) -> bool {
    exists|a: int| i <= a && #[trigger] mention_shape(t, a, m)
}

/// A mentioned path is the longest run after its `@` of characters that are
/// not whitespace nor one of ( ) , " ' ` ! ? ; : | < >: every parsed mention
/// starts at an `@`, its path holds none of those characters, and the text
/// ends or one of them follows it.
pub proof fn law_mention_paths_stop_at_punctuation(t: Seq<char>, k: int)
    requires
        0 <= k < mentions_from(t, 0).len(),
    ensures
        exists|a: int| #[trigger] mention_shape(t, a, mentions_from(t, 0)[k]),
{
    lemma_mentions_shape(t, 0);
    assert(mention_after(t, 0, mentions_from(t, 0)[k]));
}

fn is_path_char(c: char) -> (r: bool)
    ensures
        r == path_char(c),
{
    !is_whitespace(c) && !(c == '(' || c == ')' || c == ',' || c == '"' || c == '\'' || c == '`'
        || c == '!' || c == '?' || c == ';' || c == ':' || c == '|' || c == '<' || c == '>')
}

fn mention_start_at(t: &Vec<char>, i: usize) -> (r: bool)
    requires
        i < t@.len(),
    ensures
        r == mention_start(t@, i as int),
{
    t[i] == '@' && (i == 0 || !is_alphanumeric(t[i - 1]))
}

/// True when the `@` at byte `idx` starts a file mention: preceded by the start
/// of the text or a non-alphanumeric char (so `user@host` is not a mention).
pub fn is_mention_at(text: &str, idx: usize) -> (r: bool)
    ensures
        r == mention_at_byte(text@, idx as nat),
{
    let t = chars_of(text);
    let _n = str_byte_len(text);
    let offs = byte_offsets(&t);
    let mut i: usize = 0;
    while i < t.len()
        invariant
            t@ == text@,
            offs@.len() == t@.len() + 1,
            forall|k: int| 0 <= k <= t@.len() ==> offs@[k] == byte_len(#[trigger] t@.take(k)),
            i <= t@.len(),
            forall|k: int| 0 <= k < i ==> !(mention_start(t@, k) && boff(t@, k) == idx),
        decreases t.len() - i,
    {
        if offs[i] == idx && mention_start_at(&t, i) {
            return true;
        }
        i += 1;
    }
    proof {
        assert forall|k: int| !(mention_start(t@, k) && boff(t@, k) == idx) by {
            if 0 <= k < t@.len() {
            }
        }
    }
    false
}

/// The mention currently being typed at `cursor` (byte offset), if any.
/// The cursor (clamped to the text) must fall on a character boundary.
pub fn mention_at_cursor(text: &str, cursor: usize) -> (r: Option<FileMention>)
    requires
        exists|j: int| 0 <= j <= text@.len() && boff(text@, j) == clamp_cursor(text@, cursor),
    ensures
        forall|j: int|
            0 <= j <= text@.len() && boff(text@, j) == clamp_cursor(text@, cursor) ==> match r {
                Some(m) => mention_before(text@, j) == Some(m.view_tuple()),
                None => mention_before(text@, j) is None,
            },
{
    let t = chars_of(text);
    let total = str_byte_len(text);
    let offs = byte_offsets(&t);
    let cur = if cursor <= total {
        cursor
    } else {
        total
    };
    let ghost j0 = choose|j: int| 0 <= j <= text@.len() && boff(text@, j) == cur as nat;
    proof {
        assert(t@.take(t@.len() as int) =~= t@);
    }
    // The character index of the cursor.
    let mut j: usize = 0;
    while j < t.len() && offs[j] != cur
        invariant
            t@ == text@,
            offs@.len() == t@.len() + 1,
            forall|k: int| 0 <= k <= t@.len() ==> offs@[k] == byte_len(#[trigger] t@.take(k)),
            j <= t@.len(),
            0 <= j0 <= t@.len(),
            boff(t@, j0) == cur,
            j <= j0,
        decreases t.len() - j,
    {
        proof {
            if j == j0 {
                assert(offs@[j as int] == boff(t@, j0));
            }
        }
        j += 1;
    }
    proof {
        if j < j0 {
            lemma_boff_strict(t@, j as int, j0);
        } else if j0 < j {
            lemma_boff_strict(t@, j0, j as int);
        }
        assert(j == j0);
        assert forall|jj: int| 0 <= jj <= t@.len() && boff(t@, jj) == cur implies jj == j by {
            if jj < j {
                lemma_boff_strict(t@, jj, j as int);
            } else if j < jj {
                lemma_boff_strict(t@, j as int, jj);
            }
        }
    }
    // The last '@' before the cursor.
    let mut a = j;
    while a > 0 && t[a - 1] != '@'
        invariant
            t@ == text@,
            a <= j <= t@.len(),
            last_at(t@, j as int) == last_at(t@, a as int),
        decreases a,
    {
        a -= 1;
    }
    if a == 0 {
        return None;
    }
    let at = a - 1;
    if !mention_start_at(&t, at) {
        return None;
    }
    let mut k = at + 1;
    while k < j
        invariant
            t@ == text@,
            at < k <= j <= t@.len(),
            forall|m: int| at < m < k ==> path_char(t@[m]),
            last_at(t@, j as int) == Some(at as int),
            mention_start(t@, at as int),
            cur == clamp_cursor(text@, cursor),
            forall|jj: int| 0 <= jj <= t@.len() && boff(t@, jj) == cur ==> jj == j,
        decreases j - k,
    {
        if !is_path_char(t[k]) {
            return None;
        }
        k += 1;
    }
    let path = slice_chars(&t, at + 1, j);
    Some(FileMention { start: offs[at], end: cur, path: string_of(&path) })
}

/// Parse every mention in a full prompt.
pub fn parse_mentions(text: &str) -> (r: Vec<FileMention>)
    ensures
        Seq::new(r@.len(), |k: int| r@[k].view_tuple()) == mentions_from(text@, 0),
{
    let t = chars_of(text);
    let _n = str_byte_len(text);
    let offs = byte_offsets(&t);
    let mut out: Vec<FileMention> = Vec::new();
    let mut i: usize = 0;
    let n = t.len();
    while i < n
        invariant
            t@ == text@,
            n == t@.len(),
            offs@.len() == t@.len() + 1,
            forall|k: int| 0 <= k <= t@.len() ==> offs@[k] == byte_len(#[trigger] t@.take(k)),
            i <= n,
            Seq::new(out@.len(), |k: int| out@[k].view_tuple()) + mentions_from(t@, i as int)
                == mentions_from(t@, 0),
        decreases n - i,
    {
        if mention_start_at(&t, i) {
            let mut end = i + 1;
            while end < n && is_path_char(t[end])
                invariant
                    t@ == text@,
                    n == t@.len(),
                    i < end <= n,
                    path_end(t@, i + 1) == path_end(t@, end as int),
                decreases n - end,
            {
                end += 1;
            }
            let path = slice_chars(&t, i + 1, end);
            let m = FileMention { start: offs[i], end: offs[end], path: string_of(&path) };
            let ghost prev = Seq::new(out@.len(), |k: int| out@[k].view_tuple());
            out.push(m);
            proof {
                assert(Seq::new(out@.len(), |k: int| out@[k].view_tuple()) =~= prev.push(m.view_tuple()));
                assert(mentions_from(t@, i as int) == seq![m.view_tuple()] + mentions_from(t@, end as int));
                assert(prev.push(m.view_tuple()) + mentions_from(t@, end as int) =~= prev + (seq![m.view_tuple()] + mentions_from(t@, end as int)));
            }
            i = end;
        } else {
            i += 1;
        }
    }
    proof {
        assert(mentions_from(t@, i as int) =~= Seq::<(nat, nat, Seq<char>)>::empty());
        let v = Seq::new(out@.len(), |k: int| out@[k].view_tuple());
        assert(v + Seq::<(nat, nat, Seq<char>)>::empty() =~= v);
    }
    out
}

/// What a mentioned path turned out to be on disk.
pub enum MentionTarget {
    /// A file of at most 1 MiB, read as (lossy) text.
    File(String),
    /// A file over 1 MiB.
    TooLarge,
    /// A file that could not be read, with the error.
    Unreadable(String),
    /// A directory, with the names of its entries.
    Dir(Vec<String>),
    /// Nothing.
    Missing,
}

/// A mentioned path and what it is.
pub struct MentionEntry {
    pub path: String,
    pub target: MentionTarget,
}

/// How many bytes of inlined file text a prompt's context may hold.
pub const CONTEXT_BUDGET: usize = 49152;

/// The text of one mention's context, given the budget left.
pub open spec fn entry_text(e: MentionEntry, budget: nat) -> Seq<char> {
    let p = e.path@;
    match e.target {
        MentionTarget::File(text) => {
            let n = byte_len(text@);
            let take: nat = if n < budget { n } else { budget };
            "--- "@ + p + "\n"@ + text@.take(chars_within(text@, take)) + if take < n {
                "\n[file truncated]\n"@
            } else {
                seq![]
            }
        },
        MentionTarget::TooLarge => "--- "@ + p + " [too large to inline; use tools]\n"@,
        MentionTarget::Unreadable(err) => "--- "@ + p + " [unreadable: "@ + err@ + "]\n"@,
        MentionTarget::Dir(names) => {
            let ns = crate::goal::strs(names@);
            "Directory "@ + p + ": "@ + crate::text::decimal(ns.len()) + " top-level entries. Use tools (list_directory/glob/read_file) for details.\n  "@
                + crate::web::join_seqs(if ns.len() > 60 { ns.take(60) } else { ns }, ", "@) + (if ns.len() > 60 {
                ", ..."@
            } else {
                seq![]
            }) + "\n"@
        },
        MentionTarget::Missing => "Mentioned path "@ + p + " does not exist.\n"@,
    }
}

/// The budget left after one mention: a file's inlined bytes are spent.
pub open spec fn entry_cost(e: MentionEntry, budget: nat) -> nat {
    match e.target {
        MentionTarget::File(text) => if byte_len(text@) < budget { byte_len(text@) } else { budget },
        _ => 0,
    }
}

/// The characters of `t` that take exactly `k` bytes, when `k` is a
/// character boundary.
pub open spec fn chars_within(t: Seq<char>, k: nat) -> int {
    choose|j: int| 0 <= j <= t.len() && boff(t, j) == k
}

/// The context of the mentions from the `i`-th on, with `budget` bytes of
/// file text left (mentions with an empty path are skipped).
pub open spec fn context_from(es: Seq<MentionEntry>, i: int, budget: nat) -> Seq<char>
    decreases es.len() - i,
{
    if i < 0 || i >= es.len() {
        seq![]
    } else if es[i].path@.len() == 0 {
        context_from(es, i + 1, budget)
    } else {
        entry_text(es[i], budget) + context_from(es, i + 1, (budget - entry_cost(es[i], budget)) as nat)
    }
}

/// Whether every file cut by the budget is cut on a character boundary.
pub open spec fn cuts_ok(es: Seq<MentionEntry>, i: int, budget: nat) -> bool
    decreases es.len() - i,
{
    if i < 0 || i >= es.len() {
        true
    } else if es[i].path@.len() == 0 {
        cuts_ok(es, i + 1, budget)
    } else {
        &&& match es[i].target {
            MentionTarget::File(text) => budget < byte_len(text@) ==> exists|j: int|
                0 <= j <= text@.len() && boff(text@, j) == budget,
            _ => true,
        }
        &&& cuts_ok(es, i + 1, (budget - entry_cost(es[i], budget)) as nat)
    }
}

/// Whether the budget cuts every file it cuts on a character boundary, so
/// that `mention_context` can take the entries.
pub fn cuts_on_boundaries(entries: &Vec<MentionEntry>) -> (r: bool)
    ensures
        r == cuts_ok(entries@, 0, CONTEXT_BUDGET as nat),
{
    let mut budget: usize = CONTEXT_BUDGET;
    let mut i: usize = 0;
    while i < entries.len()
        invariant
            i <= entries@.len(),
            budget <= CONTEXT_BUDGET,
            cuts_ok(entries@, 0, CONTEXT_BUDGET as nat) == cuts_ok(entries@, i as int, budget as nat),
        decreases entries.len() - i,
    {
        let e = &entries[i];
        let ghost b0 = budget as nat;
        if chars_of(e.path.as_str()).len() > 0 {
            match &e.target {
                MentionTarget::File(text) => {
                    let n = str_byte_len(text.as_str());
                    if budget < n {
                        match crate::tui::app::char_index_at(text.as_str(), budget) {
                            Some(_) => {},
                            None => {
                                return false;
                            },
                        }
                        budget = 0;
                    } else {
                        budget = budget - n;
                    }
                },
                _ => {},
            }
            assert(budget == b0 - entry_cost(entries@[i as int], b0));
        }
        i += 1;
    }
    true
}

/// The context block that a prompt's @-mentions add for the model: the
/// inlined text of mentioned files (at most `CONTEXT_BUDGET` bytes in all,
/// cut files marked), directory listings (the first 60 names), and notes on
/// files too large or unreadable and paths that do not exist; none without
/// mentions.
pub fn mention_context(entries: &Vec<MentionEntry>) -> (r: Option<String>)
    requires
        cuts_ok(entries@, 0, CONTEXT_BUDGET as nat),
    ensures
        entries@.len() == 0 ==> r is None,
        entries@.len() > 0 ==> (r matches Some(t) && t@ == "Referenced files (@mentions):\n"@ + context_from(
            entries@,
            0,
            CONTEXT_BUDGET as nat,
        )),
{
    if entries.len() == 0 {
        return None;
    }
    let mut out = chars_of("Referenced files (@mentions):\n");
    let ghost head = out@;
    let mut budget: usize = CONTEXT_BUDGET;
    let mut i: usize = 0;
    while i < entries.len()
        invariant
            i <= entries@.len(),
            budget <= CONTEXT_BUDGET,
            cuts_ok(entries@, i as int, budget as nat),
            head + context_from(entries@, 0, CONTEXT_BUDGET as nat) == out@ + context_from(entries@, i as int, budget as nat),
        decreases entries.len() - i,
    {
        let e = &entries[i];
        let ghost before = out@;
        let ghost b0 = budget as nat;
        let p = chars_of(e.path.as_str());
        if p.len() > 0 {
            match &e.target {
                MentionTarget::File(text) => {
                    let n = str_byte_len(text.as_str());
                    let take = if n < budget {
                        n
                    } else {
                        budget
                    };
                    push_str_chars(&mut out, "--- ");
                    crate::text::extend_chars(&mut out, &p);
                    push_str_chars(&mut out, "\n");
                    let tv = chars_of(text.as_str());
                    let j = match crate::tui::app::char_index_at(text.as_str(), take) {
                        Some(j) => j,
                        None => {
                            proof {
                                if take == n {
                                    assert(tv@.take(tv@.len() as int) =~= tv@);
                                    assert(boff(text@, text@.len() as int) == n);
                                }
                            }
                            0
                        },
                    };
                    proof {
                        let jj = chars_within(text@, take as nat);
                        assert(exists|k: int| 0 <= k <= text@.len() && boff(text@, k) == take) by {
                            if take == n {
                                assert(text@.take(text@.len() as int) =~= text@);
                            }
                        }
                        lemma_boff_unique(text@, j as int, jj);
                    }
                    crate::text::extend_chars(&mut out, &slice_chars(&tv, 0, j));
                    if take < n {
                        push_str_chars(&mut out, "\n[file truncated]\n");
                    }
                    budget = budget - take;
                },
                MentionTarget::TooLarge => {
                    push_str_chars(&mut out, "--- ");
                    crate::text::extend_chars(&mut out, &p);
                    push_str_chars(&mut out, " [too large to inline; use tools]\n");
                },
                MentionTarget::Unreadable(err) => {
                    push_str_chars(&mut out, "--- ");
                    crate::text::extend_chars(&mut out, &p);
                    push_str_chars(&mut out, " [unreadable: ");
                    push_str_chars(&mut out, err.as_str());
                    push_str_chars(&mut out, "]\n");
                },
                MentionTarget::Dir(names) => {
                    push_str_chars(&mut out, "Directory ");
                    crate::text::extend_chars(&mut out, &p);
                    push_str_chars(&mut out, ": ");
                    crate::text::push_decimal(&mut out, names.len());
                    push_str_chars(
                        &mut out,
                        " top-level entries. Use tools (list_directory/glob/read_file) for details.\n  ",
                    );
                    let shown = if names.len() > 60 {
                        60
                    } else {
                        names.len()
                    };
                    let ghost ns = crate::goal::strs(names@);
                    let ghost parts = if ns.len() > 60 { ns.take(60) } else { ns };
                    assert(parts =~= ns.take(shown as int));
                    let ghost start = out@;
                    for k in 0..shown
                        invariant
                            shown <= names@.len(),
                            ns == crate::goal::strs(names@),
                            out@ == start + crate::web::join_seqs(ns.take(k as int), ", "@),
                    {
                        let ghost prev = out@;
                        if k > 0 {
                            push_str_chars(&mut out, ", ");
                        }
                        push_str_chars(&mut out, names[k].as_str());
                        proof {
                            let tk = ns.take(k + 1);
                            assert(tk.drop_last() =~= ns.take(k as int));
                            if k == 0 {
                                assert(tk.len() == 1);
                                assert(out@ =~= start + tk[0]);
                            } else {
                                assert(out@ =~= prev + ", "@ + tk.last());
                            }
                        }
                    }
                    if names.len() > 60 {
                        push_str_chars(&mut out, ", ...");
                    }
                    push_str_chars(&mut out, "\n");
                },
                MentionTarget::Missing => {
                    push_str_chars(&mut out, "Mentioned path ");
                    crate::text::extend_chars(&mut out, &p);
                    push_str_chars(&mut out, " does not exist.\n");
                },
            }
            assert(out@ =~= before + entry_text(entries@[i as int], b0));
            assert(budget == b0 - entry_cost(entries@[i as int], b0));
        }
        i += 1;
    }
    Some(string_of(&out))
}

} // verus!
