//! The repository file index behind `@`-mentions: fuzzy matching and the
//! queries the mention picker makes.
pub mod order;

use vstd::prelude::*;

use crate::files::order::{key_order, keys, lex_le, sort_entries, Entry, Key};
use crate::text::{
    chars_of, contains, lowercase, lowercase_of, slice_chars, starts_with, starts_with_chars,
    string_of,
};

verus! {

broadcast use vstd::seq_lib::group_to_multiset_ensures;

/// One result in the mention picker: a normalized `/`-separated relative path.
#[derive(Debug, Clone, PartialEq, Eq)]
pub struct Match {
    pub path: String,
    pub is_dir: bool,
}

impl Match {
    pub open spec fn view(&self) -> (Seq<char>, bool) {
        (self.path@, self.is_dir)
    }
}

pub open spec fn matches_view(v: Seq<Match>) -> Seq<(Seq<char>, bool)> {
    Seq::new(v.len(), |k: int| v[k].view())
}

/// Subsequence match: every character of `q`, in order, somewhere in `c`
/// (matched greedily from the left).
pub open spec fn is_subseq(q: Seq<char>, c: Seq<char>) -> bool
    decreases c.len(),
{
    if q.len() == 0 {
        true
    } else if c.len() == 0 {
        false
    } else if q[0] == c[0] {
        is_subseq(q.drop_first(), c.drop_first())
    } else {
        is_subseq(q, c.drop_first())
    }
}

/// Subsequence match: `authsvc` matches `src/auth/auth.service.ts`.
pub fn fuzzy_match(query: &str, candidate: &str) -> (r: bool)
    ensures
        r == is_subseq(query@, candidate@),
{
    fuzzy_chars(&chars_of(query), &chars_of(candidate))
}

fn fuzzy_chars(q: &[char], c: &[char]) -> (r: bool)
    ensures
        r == is_subseq(q@, c@),
{
    let mut i: usize = 0;
    let mut j: usize = 0;
    assert(q@.skip(0) =~= q@);
    assert(c@.skip(0) =~= c@);
    while j < c.len() && i < q.len()
        invariant
            i <= q@.len(),
            j <= c@.len(),
            is_subseq(q@, c@) == is_subseq(q@.skip(i as int), c@.skip(j as int)),
        decreases c@.len() - j,
    {
        assert(c@.skip(j as int).drop_first() =~= c@.skip(j + 1));
        if c[j] == q[i] {
            assert(q@.skip(i as int).drop_first() =~= q@.skip(i + 1));
            i += 1;
        }
        j += 1;
    }
    i == q.len()
}

/// Whether a path has a `/`.
pub open spec fn has_slash(p: Seq<char>) -> bool {
    contains(p, seq!['/'])
}

/// The keys `f` picks from `ps`, in order.
pub open spec fn select(ps: Seq<Seq<char>>, f: spec_fn(Seq<char>) -> Option<Key>) -> Seq<Key>
    decreases ps.len(),
{
    if ps.len() == 0 {
        seq![]
    } else {
        select(ps.drop_last(), f) + match f(ps.last()) {
            Some(k) => seq![k],
            None => Seq::<Key>::empty(),
        }
    }
}

/// The first `limit` keys in order, as `(path, is_dir)` with `is_dir`
/// read from the key's flag (`dirs_flag` is the flag value of directories).
pub open spec fn listing(cands: Seq<Key>, limit: nat, dirs_flag: bool) -> Seq<(Seq<char>, bool)> {
    let sorted = cands.sort_by(key_order());
    let n = if limit < sorted.len() {
        limit
    } else {
        sorted.len()
    };
    Seq::new(n, |k: int| (sorted[k].1, sorted[k].2 == dirs_flag))
}

/// Top-level entries: directories, then files, without a `/`.
pub open spec fn top_pick(is_dir: bool) -> spec_fn(Seq<char>) -> Option<Key> {
    |p: Seq<char>| if !has_slash(p) {
        Some((0u8, p, is_dir))
    } else {
        None
    }
}

/// Whether the rest of a path after the directory prefix matches what was
/// typed (`last_l`, lowercased): empty, a prefix, or a subsequence of the
/// lowercased rest.
pub open spec fn rest_matches(last_l: Seq<char>, rest: Seq<char>) -> bool {
    let rest_l = lowercase_of(rest);
    last_l.len() == 0 || starts_with(rest_l, last_l) || is_subseq(last_l, rest_l)
}

/// Entries under a directory prefix whose rest matches; directories need a
/// non-empty rest.
pub open spec fn under_pick(prefix: Seq<char>, last_l: Seq<char>, is_dir: bool) -> spec_fn(
    Seq<char>,
) -> Option<Key> {
    |p: Seq<char>|
        if starts_with(p, prefix) && (!is_dir || p.len() > prefix.len()) && rest_matches(
            last_l,
            p.skip(prefix.len() as int),
        ) {
            Some((0u8, p, is_dir))
        } else {
            None
        }
}

/// Score of a path against a lowercased query: 0 for a prefix, 1 for a
/// substring, 2 for a subsequence (of the lowercased path).
pub open spec fn score_of(ql: Seq<char>, p: Seq<char>) -> Option<u8> {
    let sl = lowercase_of(p);
    if starts_with(sl, ql) {
        Some(0)
    } else if contains(sl, ql) {
        Some(1)
    } else if is_subseq(ql, sl) {
        Some(2)
    } else {
        None
    }
}

/// Scored entries; on equal score and path directories (flag `false`) come
/// first, as they are listed first.
pub open spec fn score_pick(ql: Seq<char>, is_dir: bool) -> spec_fn(Seq<char>) -> Option<Key> {
    |p: Seq<char>|
        match score_of(ql, p) {
            Some(s) => Some((s, p, !is_dir)),
            None => None,
        }
}

/// A cached index of repository files and directories.
pub struct FileIndex {
    files: Vec<String>,
    dirs: Vec<String>,
}

pub open spec fn strs(v: Seq<String>) -> Seq<Seq<char>> {
    Seq::new(v.len(), |k: int| v[k]@)
}

/// Paths in `String` order.
pub open spec fn sorted_paths(s: Seq<Seq<char>>) -> bool {
    forall|x: int, y: int| 0 <= x < y < s.len() ==> lex_le(#[trigger] s[x], #[trigger] s[y])
}

impl FileIndex {
    pub closed spec fn files_view(&self) -> Seq<Seq<char>> {
        strs(self.files@)
    }

    pub closed spec fn dirs_view(&self) -> Seq<Seq<char>> {
        strs(self.dirs@)
    }

    /// An index of the given files and directories (relative `/`-separated
    /// paths), each list sorted.
    pub fn new(files: Vec<String>, dirs: Vec<String>) -> (r: Self)
        ensures
            sorted_paths(r.files_view()),
            sorted_paths(r.dirs_view()),
            r.files_view().to_multiset() == strs(files@).to_multiset(),
            r.dirs_view().to_multiset() == strs(dirs@).to_multiset(),
    {
        let f = sort_paths(&files);
        let d = sort_paths(&dirs);
        FileIndex { files: f, dirs: d }
    }
}

/// The paths of a list of keys.
pub open spec fn paths_of(s: Seq<Key>) -> Seq<Seq<char>> {
    Seq::new(s.len(), |k: int| s[k].1)
}

proof fn lemma_paths_multiset(s1: Seq<Key>, s2: Seq<Key>)
    requires
        s1.to_multiset() == s2.to_multiset(),
    ensures
        paths_of(s1).to_multiset() == paths_of(s2).to_multiset(),
    decreases s1.len(),
{
    broadcast use vstd::multiset::group_multiset_axioms;

    if s1.len() == 0 {
        vstd::seq_lib::to_multiset_len(s1);
        vstd::seq_lib::to_multiset_len(s2);
        assert(s2.len() == 0);
        assert(paths_of(s1) =~= paths_of(s2));
    } else {
        let x = s1[0];
        assert(s1.to_multiset().count(x) > 0);
        assert(s2.to_multiset().count(x) > 0);
        assert(s2.contains(x));
        let i = choose|i: int| 0 <= i < s2.len() && s2[i] == x;
        let t1 = s1.remove(0);
        let t2 = s2.remove(i);
        vstd::seq_lib::to_multiset_remove(s1, 0);
        vstd::seq_lib::to_multiset_remove(s2, i);
        lemma_paths_multiset(t1, t2);
        assert(paths_of(t1) =~= paths_of(s1).remove(0));
        assert(paths_of(t2) =~= paths_of(s2).remove(i));
        vstd::seq_lib::to_multiset_remove(paths_of(s1), 0);
        vstd::seq_lib::to_multiset_remove(paths_of(s2), i);
        let m1 = paths_of(s1).to_multiset();
        let m2 = paths_of(s2).to_multiset();
        assert(paths_of(s1)[0] == x.1);
        assert(paths_of(s2)[i] == x.1);
        assert(paths_of(s1).contains(x.1));
        assert(paths_of(s2).contains(x.1));
        vstd::seq_lib::to_multiset_contains(paths_of(s1), x.1);
        vstd::seq_lib::to_multiset_contains(paths_of(s2), x.1);
        assert(m1.remove(x.1) == m2.remove(x.1));
        assert forall|b: Seq<char>| m1.count(b) == m2.count(b) by {
            assert(m1.remove(x.1).count(b) == m2.remove(x.1).count(b));
        }
        assert(m1 =~= m2);
    }
}

pub fn sort_paths(v: &Vec<String>) -> (r: Vec<String>)
    ensures
        sorted_paths(strs(r@)),
        strs(r@).to_multiset() == strs(v@).to_multiset(),
{
    let mut entries: Vec<Entry> = Vec::new();
    for k in 0..v.len()
        invariant
            entries@.len() == k,
            forall|x: int| 0 <= x < k ==> (#[trigger] entries@[x]).key() == (0u8, v@[x]@, false),
    {
        entries.push(Entry { score: 0, path: chars_of(v[k].as_str()), flag: false });
    }
    let ghost k0 = keys(entries@);
    let sorted = sort_entries(entries);
    let mut out: Vec<String> = Vec::new();
    for k in 0..sorted.len()
        invariant
            out@.len() == k,
            forall|x: int| 0 <= x < k ==> (#[trigger] out@[x])@ == sorted@[x].path@,
    {
        out.push(string_of(&sorted[k].path));
    }
    proof {
        crate::files::order::lemma_key_total_ordering();
        k0.lemma_sort_by_ensures(key_order());
        let ks = keys(sorted@);
        assert forall|x: int| 0 <= x < ks.len() implies (#[trigger] ks[x]).0 == 0 && !ks[x].2 by {
            vstd::seq_lib::to_multiset_contains(ks, ks[x]);
            assert(ks.contains(ks[x]));
            vstd::seq_lib::to_multiset_contains(k0, ks[x]);
        }
        assert forall|x: int, y: int| 0 <= x < y < strs(out@).len() implies lex_le(
            #[trigger] strs(out@)[x],
            #[trigger] strs(out@)[y],
        ) by {
            assert(key_order()(ks[x], ks[y]));
            if ks[x].1 == ks[y].1 {
                crate::files::order::lemma_lex_refl(ks[x].1);
            }
        }
        assert(strs(out@) =~= paths_of(ks));
        assert(strs(v@) =~= paths_of(k0));
        lemma_paths_multiset(k0, ks);
    }
    out
}

/// `p` without its leading `c`s.
pub open spec fn strip_leading(p: Seq<char>, c: char) -> Seq<char>
    decreases p.len(),
{
    if p.len() > 0 && p[0] == c {
        strip_leading(p.drop_first(), c)
    } else {
        p
    }
}

/// `p` without its trailing `c`s.
pub open spec fn strip_trailing(p: Seq<char>, c: char) -> Seq<char>
    decreases p.len(),
{
    if p.len() > 0 && p.last() == c {
        strip_trailing(p.drop_last(), c)
    } else {
        p
    }
}

/// The index of the last `c` in `p`.
pub open spec fn last_index(p: Seq<char>, c: char) -> Option<int>
    decreases p.len(),
{
    if p.len() == 0 {
        None
    } else if p.last() == c {
        Some(p.len() - 1)
    } else {
        last_index(p.drop_last(), c)
    }
}

/// A directory exists when it is indexed, or some file lies under it.
pub open spec fn dir_exists_spec(files: Seq<Seq<char>>, dirs: Seq<Seq<char>>, dir: Seq<char>) -> bool {
    dirs.contains(dir) || exists|k: int| 0 <= k < files.len() && starts_with(files[k], dir.push('/'))
}

/// What the mention picker lists for a query: top-level entries for an empty
/// query; the entries inside a directory when the query names an existing
/// one before its last `/`; otherwise prefix, substring and fuzzy matches
/// over the whole repository.
pub open spec fn query_spec(
    files: Seq<Seq<char>>,
    dirs: Seq<Seq<char>>,
    q: Seq<char>,
    limit: nat,
) -> Seq<(Seq<char>, bool)> {
    let q1 = strip_leading(q, '/');
    if q1.len() == 0 {
        listing(select(dirs, top_pick(true)) + select(files, top_pick(false)), limit, true)
    } else {
        let all = listing(
            select(dirs, score_pick(lowercase_of(q1), true)) + select(files, score_pick(lowercase_of(q1), false)),
            limit,
            false,
        );
        match last_index(q1, '/') {
            Some(i) => {
                let dir = strip_trailing(q1.take(i), '/');
                if dir.len() > 0 && dir_exists_spec(files, dirs, dir) {
                    let prefix = dir.push('/');
                    let last_l = lowercase_of(q1.skip(i + 1));
                    listing(
                        select(dirs, under_pick(prefix, last_l, true)) + select(files, under_pick(prefix, last_l, false)),
                        limit,
                        true,
                    )
                } else {
                    all
                }
            },
            None => all,
        }
    }
}

fn listing_of(cands: Vec<Entry>, limit: usize, dirs_flag: bool) -> (r: Vec<Match>)
    ensures
        matches_view(r@) == listing(keys(cands@), limit as nat, dirs_flag),
{
    let sorted = sort_entries(cands);
    let n = if limit < sorted.len() {
        limit
    } else {
        sorted.len()
    };
    let mut out: Vec<Match> = Vec::new();
    for k in 0..n
        invariant
            n <= sorted@.len(),
            matches_view(out@) =~= Seq::new(
                k as nat,
                |x: int| (keys(sorted@)[x].1, keys(sorted@)[x].2 == dirs_flag),
            ),
    {
        let m = Match { path: string_of(&sorted[k].path), is_dir: sorted[k].flag == dirs_flag };
        let ghost prev = out@;
        out.push(m);
        assert(matches_view(out@) =~= matches_view(prev).push(
            (keys(sorted@)[k as int].1, keys(sorted@)[k as int].2 == dirs_flag),
        ));
    }
    out
}

fn has_slash_exec(p: &Vec<char>) -> (r: bool)
    ensures
        r == has_slash(p@),
{
    let slash: Vec<char> = vec!['/'];
    assert(slash@ =~= seq!['/']);
    crate::text::contains_chars(p, &slash)
}

/// The keys picked from a list of paths by the top-level rule.
fn pick_top(ps: &Vec<String>, is_dir: bool, out: &mut Vec<Entry>)
    ensures
        keys(final(out)@) == keys(old(out)@) + select(strs(ps@), top_pick(is_dir)),
{
    let ghost base = keys(out@);
    let ghost sv = strs(ps@);
    for k in 0..ps.len()
        invariant
            sv == strs(ps@),
            keys(out@) == base + select(sv.take(k as int), top_pick(is_dir)),
    {
        assert(sv.take(k + 1).drop_last() =~= sv.take(k as int));
        let p = chars_of(ps[k].as_str());
        let ghost prev = keys(out@);
        if !has_slash_exec(&p) {
            out.push(Entry { score: 0, path: p, flag: is_dir });
            assert(keys(out@) =~= prev.push((0u8, sv[k as int], is_dir)));
        }
        assert(keys(out@) =~= base + select(sv.take(k + 1), top_pick(is_dir)));
    }
    assert(sv.take(ps@.len() as int) =~= sv);
}

fn rest_matches_exec(last_l: &Vec<char>, rest: &Vec<char>) -> (r: bool)
    ensures
        r == rest_matches(last_l@, rest@),
{
    let rest_l = lowercase(rest);
    last_l.len() == 0 || starts_with_chars(&rest_l, last_l) || fuzzy_chars(last_l, &rest_l)
}

fn pick_under(ps: &Vec<String>, prefix: &Vec<char>, last_l: &Vec<char>, is_dir: bool, out: &mut Vec<Entry>)
    ensures
        keys(final(out)@) == keys(old(out)@) + select(strs(ps@), under_pick(prefix@, last_l@, is_dir)),
{
    let ghost base = keys(out@);
    let ghost sv = strs(ps@);
    for k in 0..ps.len()
        invariant
            sv == strs(ps@),
            keys(out@) == base + select(sv.take(k as int), under_pick(prefix@, last_l@, is_dir)),
    {
        assert(sv.take(k + 1).drop_last() =~= sv.take(k as int));
        let p = chars_of(ps[k].as_str());
        let ghost prev = keys(out@);
        if starts_with_chars(&p, prefix) && (!is_dir || p.len() > prefix.len()) {
            let rest = slice_chars(&p, prefix.len(), p.len());
            assert(rest@ =~= p@.skip(prefix@.len() as int));
            if rest_matches_exec(last_l, &rest) {
                out.push(Entry { score: 0, path: p, flag: is_dir });
                assert(keys(out@) =~= prev.push((0u8, sv[k as int], is_dir)));
            }
        }
        assert(keys(out@) =~= base + select(sv.take(k + 1), under_pick(prefix@, last_l@, is_dir)));
    }
    assert(sv.take(ps@.len() as int) =~= sv);
}

fn score_exec(ql: &Vec<char>, p: &Vec<char>) -> (r: Option<u8>)
    ensures
        r == score_of(ql@, p@),
{
    let sl = lowercase(p);
    if starts_with_chars(&sl, ql) {
        Some(0)
    } else if crate::text::contains_chars(&sl, ql) {
        Some(1)
    } else if fuzzy_chars(ql, &sl) {
        Some(2)
    } else {
        None
    }
}

fn pick_scored(ps: &Vec<String>, ql: &Vec<char>, is_dir: bool, out: &mut Vec<Entry>)
    ensures
        keys(final(out)@) == keys(old(out)@) + select(strs(ps@), score_pick(ql@, is_dir)),
{
    let ghost base = keys(out@);
    let ghost sv = strs(ps@);
    for k in 0..ps.len()
        invariant
            sv == strs(ps@),
            keys(out@) == base + select(sv.take(k as int), score_pick(ql@, is_dir)),
    {
        assert(sv.take(k + 1).drop_last() =~= sv.take(k as int));
        let p = chars_of(ps[k].as_str());
        let ghost prev = keys(out@);
        match score_exec(ql, &p) {
            Some(sc) => {
                out.push(Entry { score: sc, path: p, flag: !is_dir });
                assert(keys(out@) =~= prev.push((sc, sv[k as int], !is_dir)));
            },
            None => {},
        }
        assert(keys(out@) =~= base + select(sv.take(k + 1), score_pick(ql@, is_dir)));
    }
    assert(sv.take(ps@.len() as int) =~= sv);
}

impl FileIndex {
    /// Query the index. An empty query lists top-level entries; a query whose
    /// directory part already exists navigates inside it; otherwise prefix and
    /// fuzzy matches over the whole repository.
    pub fn query(&self, q: &str, limit: usize) -> (r: Vec<Match>)
        ensures
            matches_view(r@) == query_spec(self.files_view(), self.dirs_view(), q@, limit as nat),
    {
        let qv = chars_of(q);
        let mut s: usize = 0;
        assert(qv@.skip(0) =~= qv@);
        while s < qv.len() && qv[s] == '/'
            invariant
                s <= qv@.len(),
                strip_leading(q@, '/') == strip_leading(qv@.skip(s as int), '/'),
                qv@ == q@,
            decreases qv@.len() - s,
        {
            assert(qv@.skip(s as int).drop_first() =~= qv@.skip(s + 1));
            s += 1;
        }
        let q1 = slice_chars(&qv, s, qv.len());
        assert(q1@ =~= qv@.skip(s as int));
        if q1.len() == 0 {
            return self.top_level(limit);
        }
        let mut i = q1.len();
        assert(q1@.take(i as int) =~= q1@);
        while i > 0 && q1[i - 1] != '/'
            invariant
                i <= q1@.len(),
                last_index(q1@, '/') == last_index(q1@.take(i as int), '/'),
            decreases i,
        {
            assert(q1@.take(i as int).drop_last() =~= q1@.take(i - 1));
            i -= 1;
        }
        if i > 0 {
            assert(last_index(q1@, '/') == Some(i - 1));
            let idx = i - 1;
            let mut e = idx;
            assert(q1@.take(idx as int).take(e as int) =~= q1@.take(idx as int));
            while e > 0 && q1[e - 1] == '/'
                invariant
                    e <= idx < q1@.len(),
                    strip_trailing(q1@.take(idx as int), '/') == strip_trailing(q1@.take(e as int), '/'),
                decreases e,
            {
                assert(q1@.take(e as int).drop_last() =~= q1@.take(e - 1));
                e -= 1;
            }
            let dir = slice_chars(&q1, 0, e);
            assert(dir@ =~= q1@.take(e as int));
            if dir.len() > 0 && self.dir_exists(&dir) {
                let mut prefix = dir;
                prefix.push('/');
                let last = slice_chars(&q1, idx + 1, q1.len());
                assert(last@ =~= q1@.skip(idx + 1));
                return self.under(&prefix, &last, limit);
            }
        }
        self.match_all(&q1, limit)
    }

    fn dir_exists(&self, dir: &Vec<char>) -> (r: bool)
        ensures
            r == dir_exists_spec(self.files_view(), self.dirs_view(), dir@),
    {
        let ghost dv = self.dirs_view();
        let ghost fv = self.files_view();
        for k in 0..self.dirs.len()
            invariant
                dv == strs(self.dirs@),
                forall|x: int| 0 <= x < k ==> dv[x] != dir@,
        {
            if crate::text::eq_str(dir, self.dirs[k].as_str()) {
                assert(dv[k as int] == dir@);
                return true;
            }
        }
        let mut with_slash = slice_chars(dir, 0, dir.len());
        with_slash.push('/');
        assert(with_slash@ =~= dir@.push('/'));
        for k in 0..self.files.len()
            invariant
                fv == strs(self.files@),
                with_slash@ == dir@.push('/'),
                forall|x: int| 0 <= x < k ==> !starts_with(fv[x], dir@.push('/')),
        {
            if starts_with_chars(&chars_of(self.files[k].as_str()), &with_slash) {
                assert(starts_with(fv[k as int], dir@.push('/')));
                return true;
            }
        }
        false
    }

    fn top_level(&self, limit: usize) -> (r: Vec<Match>)
        ensures
            matches_view(r@) == listing(
                select(self.dirs_view(), top_pick(true)) + select(self.files_view(), top_pick(false)),
                limit as nat,
                true,
            ),
    {
        let mut out: Vec<Entry> = Vec::new();
        assert(keys(out@) =~= Seq::<Key>::empty());
        pick_top(&self.dirs, true, &mut out);
        pick_top(&self.files, false, &mut out);
        listing_of(out, limit, true)
    }

    fn under(&self, prefix: &Vec<char>, last: &Vec<char>, limit: usize) -> (r: Vec<Match>)
        ensures
            matches_view(r@) == listing(
                select(self.dirs_view(), under_pick(prefix@, lowercase_of(last@), true)) + select(
                    self.files_view(),
                    under_pick(prefix@, lowercase_of(last@), false),
                ),
                limit as nat,
                true,
            ),
    {
        let last_l = lowercase(last);
        let mut out: Vec<Entry> = Vec::new();
        assert(keys(out@) =~= Seq::<Key>::empty());
        pick_under(&self.dirs, prefix, &last_l, true, &mut out);
        pick_under(&self.files, prefix, &last_l, false, &mut out);
        listing_of(out, limit, true)
    }

    fn match_all(&self, q: &Vec<char>, limit: usize) -> (r: Vec<Match>)
        ensures
            matches_view(r@) == listing(
                select(self.dirs_view(), score_pick(lowercase_of(q@), true)) + select(
                    self.files_view(),
                    score_pick(lowercase_of(q@), false),
                ),
                limit as nat,
                false,
            ),
    {
        let ql = lowercase(q);
        let mut out: Vec<Entry> = Vec::new();
        assert(keys(out@) =~= Seq::<Key>::empty());
        pick_scored(&self.dirs, &ql, true, &mut out);
        pick_scored(&self.files, &ql, false, &mut out);
        listing_of(out, limit, false)
    }
}

} // verus!
