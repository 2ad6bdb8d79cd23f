//! Prompt history: recall of earlier prompts.
use vstd::prelude::*;

use crate::text::{chars_of, contains, lowercase, lowercase_of};

verus! {

/// At most this many prompts are kept.
pub const MAX_HISTORY: usize = 200;

pub open spec fn strs(v: Seq<String>) -> Seq<Seq<char>> {
    Seq::new(v.len(), |k: int| v[k]@)
}

/// The items, in order, that are non-empty and contain the lowercased query
/// in their lowercased text.
pub open spec fn matching(items: Seq<Seq<char>>, ql: Seq<char>) -> Seq<Seq<char>>
    decreases items.len(),
{
    if items.len() == 0 {
        seq![]
    } else {
        let rest = matching(items.drop_last(), ql);
        let p = items.last();
        if p.len() > 0 && contains(lowercase_of(p), ql) {
            rest.push(p)
        } else {
            rest
        }
    }
}

/// Prompts from `items` (most recent first) matching `query`
/// (case-insensitive substring), at most `limit` of them.
pub fn suggestions(items: &Vec<String>, query: &str, limit: usize) -> (r: Vec<String>)
    ensures
        strs(r@) == ({
            let m = matching(strs(items@), lowercase_of(query@));
            if limit < m.len() {
                m.take(limit as int)
            } else {
                m
            }
        }),
{
    let ql = lowercase(&chars_of(query));
    let ghost iv = strs(items@);
    let mut all: Vec<String> = Vec::new();
    for k in 0..items.len()
        invariant
            iv == strs(items@),
            strs(all@) == matching(iv.take(k as int), ql@),
    {
        assert(iv.take(k + 1).drop_last() =~= iv.take(k as int));
        let p = chars_of(items[k].as_str());
        if p.len() > 0 && crate::text::contains_chars(&lowercase(&p), &ql) {
            let ghost prev = strs(all@);
            all.push(items[k].clone());
            assert(strs(all@) =~= prev.push(iv[k as int]));
        }
    }
    assert(iv.take(items@.len() as int) =~= iv);
    let mut out: Vec<String> = Vec::new();
    let n = if limit < all.len() {
        limit
    } else {
        all.len()
    };
    for k in 0..n
        invariant
            n <= all@.len(),
            strs(out@) =~= strs(all@).take(k as int),
    {
        let ghost prev = strs(out@);
        out.push(all[k].clone());
        assert(strs(out@) =~= prev.push(strs(all@)[k as int]));
    }
    assert(strs(all@).take(n as int) =~= (if limit < all@.len() {
        strs(all@).take(limit as int)
    } else {
        strs(all@)
    }));
    out
}

/// The history after submitting `prompt`: earlier copies of it removed, it
/// first, and at most `MAX_HISTORY` kept.
pub open spec fn pushed(items: Seq<Seq<char>>, prompt: Seq<char>) -> Seq<Seq<char>> {
    let rest = items.filter(|p: Seq<char>| p != prompt);
    let all = seq![prompt] + rest;
    if all.len() > MAX_HISTORY {
        all.take(MAX_HISTORY as int)
    } else {
        all
    }
}

/// Record a submitted prompt in the history list.
pub fn push(items: &Vec<String>, prompt: &str) -> (r: Vec<String>)
    ensures
        strs(r@) == pushed(strs(items@), prompt@),
{
    let ghost iv = strs(items@);
    let mut rest: Vec<String> = Vec::new();
    for k in 0..items.len()
        invariant
            iv == strs(items@),
            strs(rest@) == iv.take(k as int).filter(|p: Seq<char>| p != prompt@),
    {
        proof {
            let t = iv.take(k + 1);
            assert(t.drop_last() =~= iv.take(k as int));
            assert(t.last() == iv[k as int]);
            t.drop_last().lemma_filter_push(t.last(), |p: Seq<char>| p != prompt@);
            assert(t =~= t.drop_last().push(t.last()));
        }
        if !crate::text::eq_str(&chars_of(items[k].as_str()), prompt) {
            let ghost prev = strs(rest@);
            rest.push(items[k].clone());
            assert(strs(rest@) =~= prev.push(iv[k as int]));
        }
    }
    assert(iv.take(items@.len() as int) =~= iv);
    let mut out: Vec<String> = Vec::new();
    out.push(String::from_str(prompt));
    let n = if rest.len() < MAX_HISTORY - 1 {
        rest.len()
    } else {
        MAX_HISTORY - 1
    };
    for k in 0..n
        invariant
            n <= rest@.len(),
            strs(out@) =~= seq![prompt@] + strs(rest@).take(k as int),
    {
        let ghost prev = strs(out@);
        out.push(rest[k].clone());
        assert(strs(out@) =~= prev.push(strs(rest@)[k as int]));
    }
    proof {
        let all = seq![prompt@] + strs(rest@);
        if all.len() > MAX_HISTORY {
            assert(strs(out@) =~= all.take(MAX_HISTORY as int));
        } else {
            assert(strs(out@) =~= all);
        }
    }
    out
}

} // verus!
