//! Saved sessions: their metadata, file names, titles, ids and order.
use vstd::prelude::*;

use crate::config::{join_path, path_join};
use crate::files::order::{lex_le, lex_le_exec};
use crate::providers::Message;
use crate::text::{chars_of, push_str_chars, slice_chars, string_of, trim_chars, trim_spec};

verus! {

/// What is stored about a session beside its messages.
#[derive(Debug, Clone)]
pub struct SessionMeta {
    pub id: String,
    pub created_at: String,
    pub title: String,
    /// Actions permanently approved ("always") during the session.
    pub approved: Vec<String>,
    /// Agent mode ("plan" | "build" | "auto"), persisted across restarts.
    pub mode: Option<String>,
    /// Workspace identity this session belongs to (git root / normalized dir).
    pub workspace: Option<String>,
    /// Directory the session was started from.
    pub cwd: Option<String>,
}

/// The metadata file of a session: `<id>.meta.json`.
pub fn meta_file_name(id: &str) -> (r: String)
    ensures
        r@ == id@ + ".meta.json"@,
{
    let mut v = chars_of(id);
    push_str_chars(&mut v, ".meta.json");
    string_of(&v)
}

/// The message log of a session: `<id>.jsonl`.
pub fn log_file_name(id: &str) -> (r: String)
    ensures
        r@ == id@ + ".jsonl"@,
{
    let mut v = chars_of(id);
    push_str_chars(&mut v, ".jsonl");
    string_of(&v)
}

/// The session id of a metadata file name, if it is one.
pub fn meta_file_id(name: &str) -> (r: Option<String>)
    ensures
        match r {
            Some(id) => name@ == id@ + ".meta.json"@,
            None => !crate::text::ends_with(name@, ".meta.json"@),
        },
{
    let v = chars_of(name);
    let suffix = chars_of(".meta.json");
    if crate::text::ends_with_chars(&v, &suffix) {
        let id = slice_chars(&v, 0, v.len() - suffix.len());
        assert(v@ =~= id@ + suffix@);
        Some(string_of(&id))
    } else {
        None
    }
}

/// The title a session takes from a prompt: its first 50 characters,
/// trimmed; none while the session has a title or the prompt is blank.
pub open spec fn title_from_prompt(title: Seq<char>, content: Seq<char>) -> Option<Seq<char>> {
    let t = trim_spec(content);
    if title.len() == 0 && t.len() > 0 {
        Some(t.take(if t.len() < 50 { t.len() as int } else { 50 }))
    } else {
        None
    }
}

pub fn title_for_prompt(title: &str, content: &str) -> (r: Option<String>)
    ensures
        match title_from_prompt(title@, content@) {
            Some(t) => r matches Some(x) && x@ == t,
            None => r is None,
        },
{
    let t = trim_chars(&chars_of(content));
    if crate::text::str_byte_len(title) == 0 && t.len() > 0 {
        proof {
            crate::text::lemma_byte_len_zero(title@);
        }
        let n = if t.len() < 50 {
            t.len()
        } else {
            50
        };
        Some(string_of(&slice_chars(&t, 0, n)))
    } else {
        proof {
            crate::text::lemma_byte_len_zero(title@);
        }
        None
    }
}

/// A new title as `rename` stores it: trimmed, at most 200 characters.
pub fn renamed_title(title: &str) -> (r: String)
    ensures
        r@ == trim_spec(title@).take(if trim_spec(title@).len() < 200 { trim_spec(title@).len() as int } else { 200 }),
{
    let t = trim_chars(&chars_of(title));
    let n = if t.len() < 200 {
        t.len()
    } else {
        200
    };
    string_of(&slice_chars(&t, 0, n))
}

/// The title of a fork: the original's, trimmed, with ` (fork)`.
pub fn fork_title(title: &str) -> (r: String)
    ensures
        r@ == trim_spec(title@) + " (fork)"@,
{
    let mut t = trim_chars(&chars_of(title));
    push_str_chars(&mut t, " (fork)");
    string_of(&t)
}

/// A session id: `<milliseconds>-<process id>-<sequence>`.
pub fn session_id(ms: u64, pid: u32, seq: u64) -> (r: String)
    ensures
        r@ == crate::text::decimal(ms as nat) + "-"@ + crate::text::decimal(pid as nat) + "-"@
            + crate::text::decimal(seq as nat),
{
    let mut v: Vec<char> = Vec::new();
    crate::text::push_u64(&mut v, ms);
    push_str_chars(&mut v, "-");
    crate::text::push_u64(&mut v, pid as u64);
    push_str_chars(&mut v, "-");
    crate::text::push_u64(&mut v, seq);
    string_of(&v)
}

/// Where sessions live under `home`: on macOS
/// `~/Library/Application Support/lightcode/sessions`, elsewhere
/// `~/.local/share/lightcode/sessions`.
pub open spec fn platform_data_dir_spec(home: Seq<char>, macos: bool) -> Seq<char> {
    if macos {
        path_join(path_join(path_join(path_join(home, "Library"@), "Application Support"@), "lightcode"@), "sessions"@)
    } else {
        path_join(path_join(path_join(path_join(home, ".local"@), "share"@), "lightcode"@), "sessions"@)
    }
}

pub fn platform_data_dir(home: &str, macos: bool) -> (r: String)
    ensures
        r@ == platform_data_dir_spec(home@, macos),
{
    let h = chars_of(home);
    let d = if macos {
        let a = join_path(&h, "Library");
        let b = join_path(&a, "Application Support");
        let c = join_path(&b, "lightcode");
        join_path(&c, "sessions")
    } else {
        let a = join_path(&h, ".local");
        let b = join_path(&a, "share");
        let c = join_path(&b, "lightcode");
        join_path(&c, "sessions")
    };
    string_of(&d)
}

/// The storage directory of a workspace: `<sessions>/workspaces/<id>`.
pub fn workspace_dir(sessions: &str, workspace: &str) -> (r: String)
    ensures
        r@ == path_join(path_join(sessions@, "workspaces"@), crate::workspace::hex_digits(crate::workspace::fnv1a(vstd::utf8::encode_utf8(workspace@)), 16)),
{
    let s = chars_of(sessions);
    let a = join_path(&s, "workspaces");
    let id = crate::workspace::workspace_id(workspace);
    let b = join_path(&a, id.as_str());
    string_of(&b)
}

/// Metadata newest first: each `created_at` is at least the next one's.
pub open spec fn newest_first(v: Seq<SessionMeta>) -> bool {
    forall|i: int, j: int| 0 <= i < j < v.len() ==> lex_le(#[trigger] v[j].created_at@, #[trigger] v[i].created_at@)
}

/// The entries of `v` created at time `t`, in their order in `v`.
pub open spec fn created_at_time(v: Seq<SessionMeta>, t: Seq<char>) -> Seq<SessionMeta> {
    v.filter(at_time(t))
}

/// Whether an entry was created at time `t`.
pub open spec fn at_time(t: Seq<char>) -> spec_fn(SessionMeta) -> bool {
    |m: SessionMeta| m.created_at@ == t
}

/// Appending splits the entries of a time between the two parts.
proof fn lemma_time_concat(a: Seq<SessionMeta>, b: Seq<SessionMeta>, t: Seq<char>)
    ensures
        created_at_time(a + b, t) == created_at_time(a, t) + created_at_time(b, t),
{
    Seq::filter_distributes_over_add(a, b, at_time(t));
}

/// One entry is kept exactly when it has the time.
proof fn lemma_time_single(m: SessionMeta, t: Seq<char>)
    ensures
        created_at_time(seq![m], t) == if m.created_at@ == t { seq![m] } else { Seq::<SessionMeta>::empty() },
{
    reveal_with_fuel(Seq::filter, 2);
    assert(seq![m].drop_last() =~= Seq::<SessionMeta>::empty());
}

/// Inserting `m` after every entry at least as new as it (into a list newest
/// first) puts it after the entries of its own time.
proof fn lemma_insert_after_ties(before: Seq<SessionMeta>, i: int, m: SessionMeta, t: Seq<char>)
    requires
        0 <= i <= before.len(),
        newest_first(before),
        i < before.len() ==> !lex_le(m.created_at@, before[i].created_at@),
    ensures
        created_at_time(before.take(i).push(m) + before.skip(i), t) == created_at_time(before, t)
            + created_at_time(seq![m], t),
{
    let pre = before.take(i);
    let post = before.skip(i);
    assert(pre.push(m) =~= pre + seq![m]);
    assert(before =~= pre + post);
    lemma_time_concat(pre + seq![m], post, t);
    lemma_time_concat(pre, seq![m], t);
    lemma_time_concat(pre, post, t);
    lemma_time_single(m, t);
    if m.created_at@ == t {
        assert forall|k: int| 0 <= k < post.len() implies post[k].created_at@ != t by {
            if post[k].created_at@ == t {
                if k > 0 {
                    assert(lex_le(before[i + k].created_at@, before[i].created_at@));
                } else {
                    crate::files::order::lemma_lex_refl(t);
                }
            }
        }
        let pred = at_time(t);
        assert(post.all(|x: SessionMeta| !pred(x)));
        post.lemma_all_neg_filter_empty(pred);
        assert(created_at_time(post, t) =~= Seq::<SessionMeta>::empty());
        assert(created_at_time(before, t) + created_at_time(seq![m], t) =~= created_at_time(pre, t)
            + created_at_time(seq![m], t) + created_at_time(post, t));
    } else {
        assert(created_at_time(seq![m], t) =~= Seq::<SessionMeta>::empty());
        assert(created_at_time(before, t) + created_at_time(seq![m], t) =~= created_at_time(pre, t)
            + created_at_time(seq![m], t) + created_at_time(post, t));
    }
}

/// Sort session metadata newest first (by `created_at`), keeping the
/// order of equal ones.
pub fn sort_newest_first(v: Vec<SessionMeta>) -> (r: Vec<SessionMeta>)
    ensures
        newest_first(r@),
        r@.to_multiset() == v@.to_multiset(),
        forall|t: Seq<char>| #[trigger] created_at_time(r@, t) == created_at_time(v@, t),
{
    let mut out: Vec<SessionMeta> = Vec::new();
    let mut rest = v;
    let ghost orig = rest@;
    let ghost mut done: int = 0;
    proof {
        assert(orig.to_multiset() =~= out@.to_multiset().add(rest@.to_multiset())) by {
            broadcast use vstd::seq_lib::group_to_multiset_ensures;
            assert(out@ =~= Seq::<SessionMeta>::empty());
        }
        assert forall|t: Seq<char>| #[trigger] created_at_time(out@, t) == created_at_time(orig.take(done), t) by {
            assert(out@ =~= Seq::<SessionMeta>::empty());
            assert(orig.take(done) =~= Seq::<SessionMeta>::empty());
        }
        assert(rest@ =~= orig.skip(done));
    }
    while rest.len() > 0
        invariant
            orig == v@,
            newest_first(out@),
            orig.to_multiset() == out@.to_multiset().add(rest@.to_multiset()),
            0 <= done <= orig.len(),
            rest@ == orig.skip(done),
            forall|t: Seq<char>| #[trigger] created_at_time(out@, t) == created_at_time(orig.take(done), t),
        decreases rest.len(),
    {
        broadcast use vstd::seq_lib::group_to_multiset_ensures;
        let ghost rest0 = rest@;
        let m = rest.remove(0);
        proof {
            assert(rest0 =~= seq![m] + rest@);
            vstd::seq_lib::lemma_multiset_commutative(seq![m], rest@);
            assert(seq![m].to_multiset() =~= vstd::multiset::Multiset::<SessionMeta>::empty().insert(m));
        }
        // Insert after every entry at least as new (stable).
        let mc = chars_of(m.created_at.as_str());
        let mut i: usize = 0;
        while i < out.len() && lex_le_exec(&mc, &chars_of(out[i].created_at.as_str()))
            invariant
                i <= out@.len(),
                mc@ == m.created_at@,
                forall|k: int| 0 <= k < i ==> lex_le(m.created_at@, #[trigger] out@[k].created_at@),
            decreases out.len() - i,
        {
            i += 1;
        }
        proof {
            if i < out@.len() {
                assert(!lex_le(m.created_at@, out@[i as int].created_at@));
                crate::files::order::lemma_lex_total(m.created_at@, out@[i as int].created_at@);
            }
        }
        let ghost before = out@;
        out.insert(i, m);
        proof {
            assert forall|t: Seq<char>| #[trigger] created_at_time(out@, t) == created_at_time(orig.take(done + 1), t) by {
                assert(out@ =~= before.take(i as int).push(m) + before.skip(i as int));
                lemma_insert_after_ties(before, i as int, m, t);
                assert(orig.take(done + 1) =~= orig.take(done) + seq![m]);
                lemma_time_concat(orig.take(done), seq![m], t);
            }
            done = done + 1;
            assert(rest@ =~= orig.skip(done));
        }
        proof {
            assert(out@ =~= before.take(i as int).push(m) + before.skip(i as int));
            assert forall|a: int, b: int| 0 <= a < b < out@.len() implies lex_le(
                #[trigger] out@[b].created_at@,
                #[trigger] out@[a].created_at@,
            ) by {
                if a < i && b == i {
                } else if a < i && b > i {
                    assert(out@[b] == before[b - 1]);
                } else if a == i && b > i {
                    assert(out@[b] == before[b - 1]);
                    if i < before.len() {
                        if b - 1 == i {
                            crate::files::order::lemma_lex_refl(before[i as int].created_at@);
                        }
                        if b - 1 > i {
                            assert(lex_le(before[b - 1].created_at@, before[i as int].created_at@));
                        }
                        crate::files::order::lemma_lex_trans(
                            before[b - 1].created_at@,
                            before[i as int].created_at@,
                            m.created_at@,
                        );
                    }
                } else if a > i {
                    assert(out@[a] == before[a - 1]);
                    assert(out@[b] == before[b - 1]);
                } else {
                    assert(out@[a] == before[a]);
                    assert(out@[b] == before[b]);
                }
            }
            assert(out@.to_multiset() =~= before.to_multiset().insert(m)) by {
                vstd::seq_lib::lemma_multiset_commutative(before.take(i as int).push(m), before.skip(i as int));
                assert(before =~= before.take(i as int) + before.skip(i as int));
                vstd::seq_lib::lemma_multiset_commutative(before.take(i as int), before.skip(i as int));
            }
        }
    }
    proof {
        broadcast use vstd::seq_lib::group_to_multiset_ensures;
        assert(rest@ =~= Seq::<SessionMeta>::empty());
        assert(out@.to_multiset().add(rest@.to_multiset()) =~= out@.to_multiset());
        assert(done == orig.len());
        assert(orig.take(done) =~= orig);
    }
    out
}

/// Counts over a session's messages: user prompts, assistant replies, tool
/// calls and results, and the characters of their text (replies without
/// their reasoning or call arguments).
pub open spec fn session_stats_spec(ms: Seq<Message>) -> (nat, nat, nat, nat)
    decreases ms.len(),
{
    if ms.len() == 0 {
        (0, 0, 0, 0)
    } else {
        let (u, a, t, c) = session_stats_spec(ms.drop_last());
        match ms.last() {
            Message::User { content } => (u + 1, a, t, c + content@.len()),
            Message::Assistant { content, tool_calls, .. } => (
                u,
                a + 1,
                t + tool_calls@.len(),
                c + match content {
                    Some(x) => x@.len(),
                    None => 0,
                },
            ),
            Message::Tool { content, .. } => (u, a, t + 1, c + content@.len()),
            Message::System { content } => (u, a, t, c + content@.len()),
        }
    }
}

proof fn lemma_stats_mono(ms: Seq<Message>, k: int)
    requires
        0 <= k <= ms.len(),
    ensures
        session_stats_spec(ms.take(k)).0 <= session_stats_spec(ms).0,
        session_stats_spec(ms.take(k)).1 <= session_stats_spec(ms).1,
        session_stats_spec(ms.take(k)).2 <= session_stats_spec(ms).2,
        session_stats_spec(ms.take(k)).3 <= session_stats_spec(ms).3,
    decreases ms.len() - k,
{
    if k < ms.len() {
        lemma_stats_mono(ms, k + 1);
        assert(ms.take(k + 1).drop_last() =~= ms.take(k));
    } else {
        assert(ms.take(k) =~= ms);
    }
}

/// The message counts and characters of a session (for `lightcode stats`).
pub fn session_stats(messages: &[Message]) -> (r: (usize, usize, usize, usize))
    requires
        session_stats_spec(messages@).2 <= usize::MAX,
        session_stats_spec(messages@).3 <= usize::MAX,
    ensures
        (r.0 as nat, r.1 as nat, r.2 as nat, r.3 as nat) == session_stats_spec(messages@),
{
    let mut u: usize = 0;
    let mut a: usize = 0;
    let mut t: usize = 0;
    let mut c: usize = 0;
    for k in 0..messages.len()
        invariant
            (u as nat, a as nat, t as nat, c as nat) == session_stats_spec(messages@.take(k as int)),
            u <= k && a <= k,
            session_stats_spec(messages@).2 <= usize::MAX,
            session_stats_spec(messages@).3 <= usize::MAX,
    {
        proof {
            assert(messages@.take(k + 1).drop_last() =~= messages@.take(k as int));
            lemma_stats_mono(messages@, k + 1);
        }
        match &messages[k] {
            Message::User { content } => {
                u += 1;
                c = c + chars_of(content.as_str()).len();
            },
            Message::Assistant { content, tool_calls, .. } => {
                a += 1;
                t = t + tool_calls.len();
                match content {
                    Some(x) => {
                        c = c + chars_of(x.as_str()).len();
                    },
                    None => {},
                }
            },
            Message::Tool { content, .. } => {
                t += 1;
                c = c + chars_of(content.as_str()).len();
            },
            Message::System { content } => {
                c = c + chars_of(content.as_str()).len();
            },
        }
    }
    assert(messages@.take(messages@.len() as int) =~= messages@);
    (u, a, t, c)
}

/// The "always" approvals after approving `action`: added at the end
/// unless it is already there.
pub open spec fn approved_after(approved: Seq<Seq<char>>, action: Seq<char>) -> Seq<Seq<char>> {
    if approved.contains(action) {
        approved
    } else {
        approved.push(action)
    }
}

/// The "always" approvals after approving `action` again.
pub fn with_approval(approved: &Vec<String>, action: &str) -> (r: Vec<String>)
    ensures
        crate::goal::strs(r@) == approved_after(crate::goal::strs(approved@), action@),
{
    let ghost av = crate::goal::strs(approved@);
    let a = chars_of(action);
    let mut out: Vec<String> = Vec::new();
    let mut found = false;
    for i in 0..approved.len()
        invariant
            av == crate::goal::strs(approved@),
            a@ == action@,
            crate::goal::strs(out@) == av.take(i as int),
            found == av.take(i as int).contains(action@),
    {
        let ghost prev = crate::goal::strs(out@);
        if crate::text::chars_eq(&chars_of(approved[i].as_str()), &a) {
            found = true;
        }
        out.push(approved[i].clone());
        proof {
            assert(crate::goal::strs(out@) =~= prev.push(approved@[i as int]@));
            assert(av.take(i + 1) =~= av.take(i as int).push(av[i as int]));
            assert(av[i as int] == approved@[i as int]@);
            if approved@[i as int]@ == action@ {
                assert(av.take(i + 1)[i as int] == action@);
            }
            if av.take(i as int).contains(action@) {
                let k = choose|k: int| 0 <= k < av.take(i as int).len() && #[trigger] av.take(i as int)[k] == action@;
                assert(av.take(i + 1)[k] == action@);
            }
            if av.take(i + 1).contains(action@) && !av.take(i as int).contains(action@) {
                let k = choose|k: int| 0 <= k < av.take(i + 1).len() && #[trigger] av.take(i + 1)[k] == action@;
                if k < i {
                    assert(av.take(i as int)[k] == action@);
                }
            }
        }
    }
    assert(av.take(approved@.len() as int) =~= av);
    if !found {
        let ghost prev = crate::goal::strs(out@);
        out.push(String::from_str(action));
        assert(crate::goal::strs(out@) =~= prev.push(action@));
    }
    out
}

/// Approving an action twice is the same as approving it once.
pub proof fn law_approval_idempotent(approved: Seq<Seq<char>>, action: Seq<char>)
    ensures
        approved_after(approved_after(approved, action), action) == approved_after(approved, action),
{
    if !approved.contains(action) {
        assert(approved.push(action)[approved.len() as int] == action);
    }
}

} // verus!
