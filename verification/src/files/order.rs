//! The order in which the file index and the mention picker list entries,
//! and a merge sort for it.
use vstd::prelude::*;
use vstd::relations::{sorted_by, total_ordering};

use crate::text::slice_chars;

verus! {

broadcast use vstd::seq_lib::group_to_multiset_ensures, vstd::multiset::group_multiset_axioms;

/// Lexicographic order on character sequences (the order of `String`).
pub open spec fn lex_le(a: Seq<char>, b: Seq<char>) -> bool
    decreases a.len(),
{
    if a.len() == 0 {
        true
    } else if b.len() == 0 {
        false
    } else if a[0] != b[0] {
        a[0] < b[0]
    } else {
        lex_le(a.drop_first(), b.drop_first())
    }
}

pub proof fn lemma_lex_refl(a: Seq<char>)
    ensures
        lex_le(a, a),
    decreases a.len(),
{
    if a.len() > 0 {
        lemma_lex_refl(a.drop_first());
    }
}

pub proof fn lemma_lex_antisym(a: Seq<char>, b: Seq<char>)
    requires
        lex_le(a, b),
        lex_le(b, a),
    ensures
        a == b,
    decreases a.len(),
{
    if a.len() > 0 && b.len() > 0 {
        lemma_lex_antisym(a.drop_first(), b.drop_first());
        assert(a =~= seq![a[0]] + a.drop_first());
        assert(b =~= seq![b[0]] + b.drop_first());
    }
}

pub proof fn lemma_lex_trans(a: Seq<char>, b: Seq<char>, c: Seq<char>)
    requires
        lex_le(a, b),
        lex_le(b, c),
    ensures
        lex_le(a, c),
    decreases a.len(),
{
    if a.len() > 0 && b.len() > 0 && c.len() > 0 {
        if a[0] == b[0] && b[0] == c[0] {
            lemma_lex_trans(a.drop_first(), b.drop_first(), c.drop_first());
        }
    }
}

pub proof fn lemma_lex_total(a: Seq<char>, b: Seq<char>)
    ensures
        lex_le(a, b) || lex_le(b, a),
    decreases a.len(),
{
    if a.len() > 0 && b.len() > 0 && a[0] == b[0] {
        lemma_lex_total(a.drop_first(), b.drop_first());
    }
}

/// What the order sees of an entry: a score (lower first), a path
/// (lexicographic), and a tie flag (`false` first).
pub type Key = (u8, Seq<char>, bool);

pub open spec fn key_le(a: Key, b: Key) -> bool {
    a.0 < b.0 || (a.0 == b.0 && ((lex_le(a.1, b.1) && a.1 != b.1) || (a.1 == b.1 && (!a.2 || b.2))))
}

pub open spec fn key_order() -> spec_fn(Key, Key) -> bool {
    |a: Key, b: Key| key_le(a, b)
}

pub proof fn lemma_key_total_ordering()
    ensures
        total_ordering(key_order()),
{
    let r = key_order();
    assert forall|a: Key| #[trigger] r(a, a) by {
        lemma_lex_refl(a.1);
    }
    assert forall|a: Key, b: Key| #[trigger] r(a, b) && #[trigger] r(b, a) implies a == b by {
        if a.0 == b.0 && a.1 != b.1 {
            if lex_le(a.1, b.1) && lex_le(b.1, a.1) {
                lemma_lex_antisym(a.1, b.1);
            }
        }
    }
    assert forall|a: Key, b: Key, c: Key| #[trigger] r(a, b) && #[trigger] r(b, c) implies r(a, c) by {
        if a.0 == b.0 && b.0 == c.0 {
            if lex_le(a.1, b.1) && lex_le(b.1, c.1) {
                lemma_lex_trans(a.1, b.1, c.1);
                if a.1 == c.1 {
                    lemma_lex_antisym(a.1, b.1);
                }
            }
        }
    }
    assert forall|a: Key, b: Key| #[trigger] r(a, b) || #[trigger] r(b, a) by {
        lemma_lex_total(a.1, b.1);
    }
}

pub proof fn lemma_key_trans(a: Key, b: Key, c: Key)
    requires
        key_le(a, b),
        key_le(b, c),
    ensures
        key_le(a, c),
{
    lemma_key_total_ordering();
    assert(key_order()(a, b) && key_order()(b, c));
}

pub proof fn lemma_key_total(a: Key, b: Key)
    ensures
        key_le(a, b) || key_le(b, a),
{
    lemma_key_total_ordering();
    assert(key_order()(a, b) || key_order()(b, a));
}

/// Keys in order.
pub open spec fn sorted_keys(s: Seq<Key>) -> bool {
    forall|x: int, y: int| 0 <= x < y < s.len() ==> key_le(#[trigger] s[x], #[trigger] s[y])
}

proof fn lemma_sorted_keys_by(s: Seq<Key>)
    ensures
        sorted_keys(s) == sorted_by(s, key_order()),
{
    if sorted_keys(s) {
        assert forall|x: int, y: int| 0 <= x < y < s.len() implies #[trigger] key_order()(s[x], s[y]) by {
            assert(key_le(s[x], s[y]));
        }
    }
    if sorted_by(s, key_order()) {
        assert forall|x: int, y: int| 0 <= x < y < s.len() implies key_le(#[trigger] s[x], #[trigger] s[y]) by {
            assert(key_order()(s[x], s[y]));
        }
    }
}

/// An item to sort: its score, path and tie flag.
#[derive(Debug)]
pub struct Entry {
    pub score: u8,
    pub path: Vec<char>,
    pub flag: bool,
}

impl Entry {
    pub open spec fn key(&self) -> Key {
        (self.score, self.path@, self.flag)
    }
}

pub open spec fn keys(v: Seq<Entry>) -> Seq<Key> {
    Seq::new(v.len(), |k: int| v[k].key())
}

/// `a` before or with `b` in the order.
pub fn lex_le_exec(a: &[char], b: &[char]) -> (r: bool)
    ensures
        r == lex_le(a@, b@),
{
    let mut i: usize = 0;
    assert(a@.skip(0) =~= a@);
    assert(b@.skip(0) =~= b@);
    while i < a.len() && i < b.len() && a[i] == b[i]
        invariant
            i <= a@.len(),
            i <= b@.len(),
            lex_le(a@, b@) == lex_le(a@.skip(i as int), b@.skip(i as int)),
        decreases a.len() - i,
    {
        assert(a@.skip(i as int).drop_first() =~= a@.skip(i + 1));
        assert(b@.skip(i as int).drop_first() =~= b@.skip(i + 1));
        i += 1;
    }
    if i == a.len() {
        true
    } else if i == b.len() {
        false
    } else {
        a[i] < b[i]
    }
}

fn key_le_exec(a: &Entry, b: &Entry) -> (r: bool)
    ensures
        r == key_le(a.key(), b.key()),
{
    if a.score != b.score {
        return a.score < b.score;
    }
    let le = lex_le_exec(&a.path, &b.path);
    let eq = crate::text::chars_eq(&a.path, &b.path);
    (le && !eq) || (eq && (!a.flag || b.flag))
}

fn copy_entry(e: &Entry) -> (r: Entry)
    ensures
        r.key() == e.key(),
{
    let p = slice_chars(&e.path, 0, e.path.len());
    assert(p@ =~= e.path@);
    Entry { score: e.score, path: p, flag: e.flag }
}

fn merge(a: &Vec<Entry>, b: &Vec<Entry>) -> (r: Vec<Entry>)
    requires
        sorted_keys(keys(a@)),
        sorted_keys(keys(b@)),
    ensures
        sorted_keys(keys(r@)),
        keys(r@).to_multiset() == keys(a@).to_multiset().add(keys(b@).to_multiset()),
{
    let ghost ka = keys(a@);
    let ghost kb = keys(b@);
    let mut out: Vec<Entry> = Vec::new();
    let mut i: usize = 0;
    let mut j: usize = 0;
    assert(ka.take(0) =~= Seq::<Key>::empty());
    assert(kb.take(0) =~= Seq::<Key>::empty());
    assert(keys(out@) =~= Seq::<Key>::empty());
    while i < a.len() || j < b.len()
        invariant
            i <= a@.len(),
            j <= b@.len(),
            ka == keys(a@),
            kb == keys(b@),
            sorted_keys(ka),
            sorted_keys(kb),
            sorted_keys(keys(out@)),
            keys(out@).to_multiset() == ka.take(i as int).to_multiset().add(
                kb.take(j as int).to_multiset(),
            ),
            keys(out@).len() == i + j,
            out@.len() > 0 && i < a@.len() ==> key_le(keys(out@).last(), ka[i as int]),
            out@.len() > 0 && j < b@.len() ==> key_le(keys(out@).last(), kb[j as int]),
        decreases a@.len() + b@.len() - i - j,
    {
        let take_a = if i < a.len() && j < b.len() {
            key_le_exec(&a[i], &b[j])
        } else {
            i < a.len()
        };
        let ghost prev = keys(out@);
        if take_a {
            let e = copy_entry(&a[i]);
            out.push(e);
            proof {
                let nk = ka[i as int];
                assert(keys(out@) =~= prev.push(nk));
                assert(ka.take(i + 1) =~= ka.take(i as int).push(nk));
                assert forall|x: int, y: int| 0 <= x < y < keys(out@).len() implies key_le(
                    #[trigger] keys(out@)[x],
                    #[trigger] keys(out@)[y],
                ) by {
                    if y == prev.len() && x < prev.len() - 1 {
                        lemma_key_trans(prev[x], prev.last(), nk);
                    }
                }
                if i + 1 < a@.len() {
                    assert(key_le(ka[i as int], ka[i + 1]));
                }
            }
            i += 1;
        } else {
            let e = copy_entry(&b[j]);
            out.push(e);
            proof {
                let nk = kb[j as int];
                assert(keys(out@) =~= prev.push(nk));
                assert(kb.take(j + 1) =~= kb.take(j as int).push(nk));
                if i < a@.len() {
                    lemma_key_total(ka[i as int], nk);
                }
                assert forall|x: int, y: int| 0 <= x < y < keys(out@).len() implies key_le(
                    #[trigger] keys(out@)[x],
                    #[trigger] keys(out@)[y],
                ) by {
                    if y == prev.len() && x < prev.len() - 1 {
                        lemma_key_trans(prev[x], prev.last(), nk);
                    }
                }
                if j + 1 < b@.len() {
                    assert(key_le(kb[j as int], kb[j + 1]));
                }
            }
            j += 1;
        }
    }
    assert(ka.take(i as int) =~= ka);
    assert(kb.take(j as int) =~= kb);
    out
}

/// Sort entries by score, then path, then flag.
pub fn sort_entries(v: Vec<Entry>) -> (r: Vec<Entry>)
    ensures
        keys(r@) == keys(v@).sort_by(key_order()),
{
    let r = merge_sort(v);
    proof {
        lemma_key_total_ordering();
        lemma_sorted_keys_by(keys(r@));
        keys(v@).lemma_sort_by_ensures(key_order());
        vstd::seq_lib::lemma_sorted_unique(keys(r@), keys(v@).sort_by(key_order()), key_order());
    }
    r
}

fn merge_sort(v: Vec<Entry>) -> (r: Vec<Entry>)
    ensures
        sorted_keys(keys(r@)),
        keys(r@).to_multiset() == keys(v@).to_multiset(),
    decreases v@.len(),
{
    if v.len() <= 1 {
        return v;
    }
    let mid = v.len() / 2;
    let ghost kv = keys(v@);
    let mut left = v;
    let right = left.split_off(mid);
    proof {
        assert(kv =~= keys(left@) + keys(right@));
        vstd::seq_lib::lemma_multiset_commutative(keys(left@), keys(right@));
    }
    let l = merge_sort(left);
    let r = merge_sort(right);
    merge(&l, &r)
}

} // verus!
