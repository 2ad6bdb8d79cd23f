//! Line-based unified diffs of file contents before and after an edit.
use vstd::prelude::*;

use crate::text::{
    chars_eq, chars_of, decimal, extend_chars, lemma_split_count, lemma_split_on_len, push_decimal, slice_chars, split_chars, split_on,
    string_of, view2,
};

verus! {

/// Lines of context kept around each change.
pub const CONTEXT: usize = 3;

/// Above this many cells the line table is not built and the region is
/// reported as deleted, then inserted.
pub const LCS_CELLS: usize = 4000000;

/// How a line takes part in the edit script.
#[derive(Clone, Copy, Debug, PartialEq, Eq, Structural)]
pub enum OpKind {
    Eq,
    Del,
    Ins,
}

/// One line of an edit script.
#[derive(Clone, Debug)]
pub struct Op {
    pub kind: OpKind,
    pub line: Vec<char>,
}

impl Op {
    pub open spec fn view(self) -> (OpKind, Seq<char>) {
        (self.kind, self.line@)
    }
}

pub open spec fn ops_view(ops: Seq<Op>) -> Seq<(OpKind, Seq<char>)> {
    Seq::new(ops.len(), |k: int| ops[k].view())
}

/// Length of a longest common subsequence of `a[..i]` and `b[..j]`.
pub open spec fn lcs_len(a: Seq<Seq<char>>, b: Seq<Seq<char>>, i: nat, j: nat) -> nat
    decreases i + j,
{
    if i == 0 || j == 0 {
        0
    } else if a[i - 1] == b[j - 1] {
        lcs_len(a, b, (i - 1) as nat, (j - 1) as nat) + 1
    } else {
        let d = lcs_len(a, b, (i - 1) as nat, j);
        let r = lcs_len(a, b, i, (j - 1) as nat);
        if d >= r {
            d
        } else {
            r
        }
    }
}

/// The edit script for `a[..i]` against `b[..j]` read back from the LCS table:
/// equal last lines are kept, otherwise a deletion is preferred when it keeps
/// the common subsequence as long.
pub open spec fn trace(a: Seq<Seq<char>>, b: Seq<Seq<char>>, i: nat, j: nat) -> Seq<
    (OpKind, Seq<char>),
>
    decreases i + j,
{
    if i == 0 && j == 0 {
        seq![]
    } else if i == 0 {
        trace(a, b, 0, (j - 1) as nat).push((OpKind::Ins, b[j - 1]))
    } else if j == 0 {
        trace(a, b, (i - 1) as nat, 0).push((OpKind::Del, a[i - 1]))
    } else if a[i - 1] == b[j - 1] {
        trace(a, b, (i - 1) as nat, (j - 1) as nat).push((OpKind::Eq, a[i - 1]))
    } else if lcs_len(a, b, (i - 1) as nat, j) >= lcs_len(a, b, i, (j - 1) as nat) {
        trace(a, b, (i - 1) as nat, j).push((OpKind::Del, a[i - 1]))
    } else {
        trace(a, b, i, (j - 1) as nat).push((OpKind::Ins, b[j - 1]))
    }
}

/// Every line of `a` deleted, then every line of `b` inserted.
pub open spec fn replace_all(a: Seq<Seq<char>>, b: Seq<Seq<char>>) -> Seq<(OpKind, Seq<char>)> {
    Seq::new(a.len(), |k: int| (OpKind::Del, a[k])) + Seq::new(
        b.len(),
        |k: int| (OpKind::Ins, b[k]),
    )
}

/// The edit script that `lcs_ops` produces.
pub open spec fn edit_script(a: Seq<Seq<char>>, b: Seq<Seq<char>>) -> Seq<(OpKind, Seq<char>)> {
    if a.len() * b.len() > LCS_CELLS {
        replace_all(a, b)
    } else {
        trace(a, b, a.len(), b.len())
    }
}

/// The lines an edit script reads from the old text.
pub open spec fn old_side(ops: Seq<(OpKind, Seq<char>)>) -> Seq<Seq<char>>
    decreases ops.len(),
{
    if ops.len() == 0 {
        seq![]
    } else if ops.last().0 == OpKind::Ins {
        old_side(ops.drop_last())
    } else {
        old_side(ops.drop_last()).push(ops.last().1)
    }
}

/// The lines an edit script writes to the new text.
pub open spec fn new_side(ops: Seq<(OpKind, Seq<char>)>) -> Seq<Seq<char>>
    decreases ops.len(),
{
    if ops.len() == 0 {
        seq![]
    } else if ops.last().0 == OpKind::Del {
        new_side(ops.drop_last())
    } else {
        new_side(ops.drop_last()).push(ops.last().1)
    }
}

/// Number of kept lines in an edit script.
pub open spec fn kept(ops: Seq<(OpKind, Seq<char>)>) -> nat
    decreases ops.len(),
{
    if ops.len() == 0 {
        0
    } else if ops.last().0 == OpKind::Eq {
        kept(ops.drop_last()) + 1
    } else {
        kept(ops.drop_last())
    }
}

proof fn lemma_lcs_le(a: Seq<Seq<char>>, b: Seq<Seq<char>>, i: nat, j: nat)
    ensures
        lcs_len(a, b, i, j) <= i,
        lcs_len(a, b, i, j) <= j,
    decreases i + j,
{
    if i > 0 && j > 0 {
        lemma_lcs_le(a, b, (i - 1) as nat, (j - 1) as nat);
        lemma_lcs_le(a, b, (i - 1) as nat, j);
        lemma_lcs_le(a, b, i, (j - 1) as nat);
    }
}

/// Reading the trace back gives both texts, and keeps exactly as many lines
/// as the longest common subsequence has.
pub proof fn lemma_trace_sides(a: Seq<Seq<char>>, b: Seq<Seq<char>>, i: nat, j: nat)
    requires
        i <= a.len(),
        j <= b.len(),
    ensures
        old_side(trace(a, b, i, j)) == a.take(i as int),
        new_side(trace(a, b, i, j)) == b.take(j as int),
        kept(trace(a, b, i, j)) == lcs_len(a, b, i, j),
    decreases i + j,
{
    let t = trace(a, b, i, j);
    if i == 0 && j == 0 {
        assert(a.take(0) =~= seq![]);
        assert(b.take(0) =~= seq![]);
    } else if i == 0 {
        lemma_trace_sides(a, b, 0, (j - 1) as nat);
        assert(t.drop_last() =~= trace(a, b, 0, (j - 1) as nat));
        assert(b.take(j as int) =~= b.take(j - 1).push(b[j - 1]));
    } else if j == 0 {
        lemma_trace_sides(a, b, (i - 1) as nat, 0);
        assert(t.drop_last() =~= trace(a, b, (i - 1) as nat, 0));
        assert(a.take(i as int) =~= a.take(i - 1).push(a[i - 1]));
    } else if a[i - 1] == b[j - 1] {
        lemma_trace_sides(a, b, (i - 1) as nat, (j - 1) as nat);
        assert(t.drop_last() =~= trace(a, b, (i - 1) as nat, (j - 1) as nat));
        assert(a.take(i as int) =~= a.take(i - 1).push(a[i - 1]));
        assert(b.take(j as int) =~= b.take(j - 1).push(b[j - 1]));
    } else if lcs_len(a, b, (i - 1) as nat, j) >= lcs_len(a, b, i, (j - 1) as nat) {
        lemma_trace_sides(a, b, (i - 1) as nat, j);
        assert(t.drop_last() =~= trace(a, b, (i - 1) as nat, j));
        assert(a.take(i as int) =~= a.take(i - 1).push(a[i - 1]));
    } else {
        lemma_trace_sides(a, b, i, (j - 1) as nat);
        assert(t.drop_last() =~= trace(a, b, i, (j - 1) as nat));
        assert(b.take(j as int) =~= b.take(j - 1).push(b[j - 1]));
    }
}

proof fn lemma_replace_all_sides(a: Seq<Seq<char>>, b: Seq<Seq<char>>)
    ensures
        old_side(replace_all(a, b)) == a,
        new_side(replace_all(a, b)) == b,
    decreases a.len() + b.len(),
{
    let r = replace_all(a, b);
    if b.len() > 0 {
        lemma_replace_all_sides(a, b.drop_last());
        assert(r.drop_last() =~= replace_all(a, b.drop_last()));
        assert(b =~= b.drop_last().push(b.last()));
    } else if a.len() > 0 {
        lemma_replace_all_sides(a.drop_last(), b);
        assert(r.drop_last() =~= replace_all(a.drop_last(), b));
        assert(a =~= a.drop_last().push(a.last()));
    } else {
        assert(r =~= seq![]);
    }
}

/// An edit script reads exactly the old lines and writes exactly the new ones.
pub proof fn law_edit_script_sides(a: Seq<Seq<char>>, b: Seq<Seq<char>>)
    ensures
        old_side(edit_script(a, b)) == a,
        new_side(edit_script(a, b)) == b,
{
    if a.len() * b.len() > LCS_CELLS {
        lemma_replace_all_sides(a, b);
    } else {
        lemma_trace_sides(a, b, a.len(), b.len());
        assert(a.take(a.len() as int) =~= a);
        assert(b.take(b.len() as int) =~= b);
    }
}

proof fn lemma_trace_same(a: Seq<Seq<char>>, i: nat)
    requires
        i <= a.len(),
    ensures
        forall|k: int| 0 <= k < i ==> (#[trigger] trace(a, a, i, i)[k]).0 == OpKind::Eq,
        trace(a, a, i, i).len() == i,
    decreases i,
{
    if i > 0 {
        lemma_trace_same(a, (i - 1) as nat);
    }
}

/// Diffing a text against itself keeps every line (while the table is built).
pub proof fn law_edit_script_same(a: Seq<Seq<char>>)
    requires
        a.len() * a.len() <= LCS_CELLS,
    ensures
        edit_script(a, a).len() == a.len(),
        forall|k: int| 0 <= k < a.len() ==> (#[trigger] edit_script(a, a)[k]).0 == OpKind::Eq,
{
    lemma_trace_same(a, a.len());
}

proof fn lemma_trace_edges(a: Seq<Seq<char>>, b: Seq<Seq<char>>, i: nat, j: nat)
    requires
        i <= a.len(),
        j <= b.len(),
        i == 0 || j == 0,
    ensures
        trace(a, b, i, j) == replace_all(a.take(i as int), b.take(j as int)),
    decreases i + j,
{
    if i == 0 && j == 0 {
        assert(replace_all(a.take(0), b.take(0)) =~= seq![]);
    } else if i == 0 {
        lemma_trace_edges(a, b, 0, (j - 1) as nat);
        assert(replace_all(a.take(0), b.take(j as int)) =~= replace_all(
            a.take(0),
            b.take(j - 1),
        ).push((OpKind::Ins, b[j - 1])));
    } else {
        lemma_trace_edges(a, b, (i - 1) as nat, 0);
        assert(replace_all(a.take(i as int), b.take(0)) =~= replace_all(
            a.take(i - 1),
            b.take(0),
        ).push((OpKind::Del, a[i - 1])));
    }
}

proof fn lemma_cells(n: int, m: int)
    requires
        n > 0,
        m >= 0,
    ensures
        (m > LCS_CELLS as int / n) <==> (n * m > LCS_CELLS),
        n * m <= LCS_CELLS && m > 0 ==> n <= LCS_CELLS,
{
    let q = LCS_CELLS as int / n;
    let r = LCS_CELLS as int % n;
    assert(q * n + r == LCS_CELLS && 0 <= r < n) by (nonlinear_arith)
        requires
            n > 0,
            q == LCS_CELLS as int / n,
            r == LCS_CELLS as int % n,
    ;
    if m > q {
        assert(n * m >= n * (q + 1)) by (nonlinear_arith)
            requires
                m >= q + 1,
                n > 0,
        ;
        assert(n * (q + 1) == q * n + n) by (nonlinear_arith);
    } else {
        assert(n * m <= n * q) by (nonlinear_arith)
            requires
                m <= q,
                n > 0,
        ;
        assert(n * q == q * n) by (nonlinear_arith);
    }
    if n * m <= LCS_CELLS && m > 0 {
        assert(n <= n * m) by (nonlinear_arith)
            requires
                m >= 1,
                n > 0,
        ;
    }
}

fn op(kind: OpKind, line: &Vec<char>) -> (r: Op)
    ensures
        r.view() == (kind, line@),
{
    Op { kind, line: slice_chars(line, 0, line.len()) }
}

/// The edit script of `b` against `a`: a longest-common-subsequence diff, or
/// delete-all then insert-all when the table would exceed `LCS_CELLS` cells.
pub fn lcs_ops(a: &Vec<Vec<char>>, b: &Vec<Vec<char>>) -> (r: Vec<Op>)
    ensures
        ops_view(r@) == edit_script(view2(a@), view2(b@)),
{
    let ghost av = view2(a@);
    let ghost bv = view2(b@);
    let n = a.len();
    let m = b.len();
    let too_large = n > 0 && m > LCS_CELLS / n;
    proof {
        if n > 0 {
            lemma_cells(n as int, m as int);
        } else {
            assert(n * m == 0);
        }
        if n > 0 && m > 0 {
            lemma_cells(m as int, n as int);
            assert(n * m == m * n) by (nonlinear_arith);
        }
    }
    if too_large || n == 0 || m == 0 {
        let mut ops: Vec<Op> = Vec::new();
        for k in 0..n
            invariant
                n == a@.len(),
                av == view2(a@),
                ops@.len() == k,
                forall|x: int| 0 <= x < k ==> (#[trigger] ops@[x]).view() == (OpKind::Del, av[x]),
        {
            ops.push(op(OpKind::Del, &a[k]));
        }
        for k in 0..m
            invariant
                n == a@.len(),
                m == b@.len(),
                av == view2(a@),
                bv == view2(b@),
                ops@.len() == n + k,
                forall|x: int| 0 <= x < n ==> (#[trigger] ops@[x]).view() == (OpKind::Del, av[x]),
                forall|x: int|
                    n <= x < n + k ==> (#[trigger] ops@[x]).view() == (OpKind::Ins, bv[x - n]),
        {
            ops.push(op(OpKind::Ins, &b[k]));
        }
        proof {
            assert(ops_view(ops@) =~= replace_all(av, bv));
            if !too_large {
                lemma_trace_edges(av, bv, n as nat, m as nat);
                assert(av.take(n as int) =~= av);
                assert(bv.take(m as int) =~= bv);
            }
        }
        return ops;
    }
    // The table: dp[i][j] is the LCS length of a[..i] and b[..j].
    let mut dp: Vec<Vec<usize>> = Vec::new();
    let mut row0: Vec<usize> = Vec::new();
    for j in 0..m + 1
        invariant
            row0@.len() == j,
            forall|c: int| 0 <= c < j ==> row0@[c] == 0,
    {
        row0.push(0);
    }
    dp.push(row0);
    for i in 1..n + 1
        invariant
            1 <= n <= LCS_CELLS,
            1 <= m <= LCS_CELLS,
            n == a@.len(),
            m == b@.len(),
            av == view2(a@),
            bv == view2(b@),
            dp@.len() == i,
            forall|r: int| 0 <= r < i ==> (#[trigger] dp@[r])@.len() == m + 1,
            forall|r: int, c: int|
                0 <= r < i && 0 <= c <= m ==> (#[trigger] dp@[r]@[c]) == lcs_len(
                    av,
                    bv,
                    r as nat,
                    c as nat,
                ),
    {
        let mut cur: Vec<usize> = Vec::new();
        cur.push(0);
        for j in 1..m + 1
            invariant
                1 <= i <= n <= LCS_CELLS,
                1 <= m <= LCS_CELLS,
                n == a@.len(),
                m == b@.len(),
                av == view2(a@),
                bv == view2(b@),
                dp@.len() == i,
                forall|r: int| 0 <= r < i ==> (#[trigger] dp@[r])@.len() == m + 1,
                forall|r: int, c: int|
                    0 <= r < i && 0 <= c <= m ==> (#[trigger] dp@[r]@[c]) == lcs_len(
                        av,
                        bv,
                        r as nat,
                        c as nat,
                    ),
                cur@.len() == j,
                forall|c: int|
                    0 <= c < j ==> (#[trigger] cur@[c]) == lcs_len(av, bv, i as nat, c as nat),
        {
            proof {
                lemma_lcs_le(av, bv, (i - 1) as nat, (j - 1) as nat);
            }
            let v = if chars_eq(&a[i - 1], &b[j - 1]) {
                dp[i - 1][j - 1] + 1
            } else {
                let d = dp[i - 1][j];
                let l = cur[j - 1];
                if d >= l {
                    d
                } else {
                    l
                }
            };
            cur.push(v);
        }
        dp.push(cur);
    }
    // Read the script back from the table, last line first.
    let mut rev: Vec<Op> = Vec::new();
    let ghost mut suffix: Seq<(OpKind, Seq<char>)> = seq![];
    let mut i = n;
    let mut j = m;
    while i > 0 || j > 0
        invariant
            i <= n,
            j <= m,
            n == a@.len(),
            m == b@.len(),
            av == view2(a@),
            bv == view2(b@),
            dp@.len() == n + 1,
            forall|r: int| 0 <= r <= n ==> (#[trigger] dp@[r])@.len() == m + 1,
            forall|r: int, c: int|
                0 <= r <= n && 0 <= c <= m ==> (#[trigger] dp@[r]@[c]) == lcs_len(
                    av,
                    bv,
                    r as nat,
                    c as nat,
                ),
            trace(av, bv, n as nat, m as nat) == trace(av, bv, i as nat, j as nat) + suffix,
            rev@.len() == suffix.len(),
            forall|k: int|
                0 <= k < suffix.len() ==> (#[trigger] rev@[k]).view() == suffix[suffix.len() - 1
                    - k],
        decreases i + j,
    {
        let ghost t = trace(av, bv, i as nat, j as nat);
        if i == 0 {
            rev.push(op(OpKind::Ins, &b[j - 1]));
            j -= 1;
        } else if j == 0 {
            rev.push(op(OpKind::Del, &a[i - 1]));
            i -= 1;
        } else if chars_eq(&a[i - 1], &b[j - 1]) {
            rev.push(op(OpKind::Eq, &a[i - 1]));
            i -= 1;
            j -= 1;
        } else if dp[i - 1][j] >= dp[i][j - 1] {
            rev.push(op(OpKind::Del, &a[i - 1]));
            i -= 1;
        } else {
            rev.push(op(OpKind::Ins, &b[j - 1]));
            j -= 1;
        }
        proof {
            let last = rev@.last().view();
            assert(t == trace(av, bv, i as nat, j as nat).push(last));
            let ns = seq![last] + suffix;
            assert(trace(av, bv, i as nat, j as nat).push(last) + suffix =~= trace(
                av,
                bv,
                i as nat,
                j as nat,
            ) + ns);
            suffix = ns;
        }
    }
    let mut ops: Vec<Op> = Vec::new();
    let len = rev.len();
    let mut k = len;
    while k > 0
        invariant
            k <= len == rev@.len() == suffix.len(),
            ops@.len() == len - k,
            forall|x: int|
                0 <= x < suffix.len() ==> (#[trigger] rev@[x]).view() == suffix[suffix.len() - 1
                    - x],
            forall|x: int| 0 <= x < len - k ==> (#[trigger] ops@[x]).view() == suffix[x],
        decreases k,
    {
        k -= 1;
        ops.push(op(rev[k].kind, &rev[k].line));
    }
    proof {
        assert(trace(av, bv, 0, 0) + suffix =~= suffix);
        assert(ops_view(ops@) =~= suffix);
    }
    ops
}

/// First index at or after `i` whose line is not kept.
pub open spec fn skip_kept(ops: Seq<(OpKind, Seq<char>)>, i: int) -> int
    decreases ops.len() - i,
{
    if i < 0 || i >= ops.len() || ops[i].0 != OpKind::Eq {
        i
    } else {
        skip_kept(ops, i + 1)
    }
}

/// First index at or after `i` whose line is kept.
pub open spec fn skip_changes(ops: Seq<(OpKind, Seq<char>)>, i: int) -> int
    decreases ops.len() - i,
{
    if i < 0 || i >= ops.len() || ops[i].0 == OpKind::Eq {
        i
    } else {
        skip_changes(ops, i + 1)
    }
}

/// Move `h` back over kept lines, at most `CONTEXT - back` of them.
pub open spec fn lead_start(ops: Seq<(OpKind, Seq<char>)>, h: int, back: int) -> int
    decreases CONTEXT - back,
{
    if h > 0 && back < CONTEXT && ops[h - 1].0 == OpKind::Eq {
        lead_start(ops, h - 1, back + 1)
    } else {
        h
    }
}

/// Move `k` forward over kept lines, at most `CONTEXT - ctx` of them.
pub open spec fn trail_end(ops: Seq<(OpKind, Seq<char>)>, k: int, ctx: int) -> int
    decreases CONTEXT - ctx,
{
    if 0 <= k < ops.len() && ctx < CONTEXT && ops[k].0 == OpKind::Eq {
        trail_end(ops, k + 1, ctx + 1)
    } else {
        k
    }
}

/// End of a run of changes starting at `i`, with its trailing context.
pub open spec fn change_end(ops: Seq<(OpKind, Seq<char>)>, i: int) -> int {
    trail_end(ops, skip_changes(ops, i), 0)
}

pub proof fn lemma_skip_bounds(ops: Seq<(OpKind, Seq<char>)>, i: int)
    requires
        0 <= i <= ops.len(),
    ensures
        i <= skip_kept(ops, i) <= ops.len(),
        i <= skip_changes(ops, i) <= ops.len(),
        forall|k: int| i <= k < skip_kept(ops, i) ==> ops[k].0 == OpKind::Eq,
        forall|k: int| i <= k < skip_changes(ops, i) ==> ops[k].0 != OpKind::Eq,
        skip_kept(ops, i) < ops.len() ==> ops[skip_kept(ops, i)].0 != OpKind::Eq,
        skip_changes(ops, i) < ops.len() ==> ops[skip_changes(ops, i)].0 == OpKind::Eq,
    decreases ops.len() - i,
{
    if i < ops.len() {
        lemma_skip_bounds(ops, i + 1);
    }
}

pub proof fn lemma_trail_bounds(ops: Seq<(OpKind, Seq<char>)>, k: int, ctx: int)
    requires
        0 <= k <= ops.len(),
        0 <= ctx,
    ensures
        k <= trail_end(ops, k, ctx) <= ops.len(),
    decreases CONTEXT - ctx,
{
    if k < ops.len() && ctx < CONTEXT && ops[k].0 == OpKind::Eq {
        lemma_trail_bounds(ops, k + 1, ctx + 1);
    }
}

pub proof fn lemma_change_end_bounds(ops: Seq<(OpKind, Seq<char>)>, i: int)
    requires
        0 <= i < ops.len(),
        ops[i].0 != OpKind::Eq,
    ensures
        i < change_end(ops, i) <= ops.len(),
{
    lemma_skip_bounds(ops, i);
    lemma_skip_bounds(ops, i + 1);
    assert(skip_changes(ops, i) == skip_changes(ops, i + 1));
    lemma_trail_bounds(ops, skip_changes(ops, i), 0);
}

/// Extend a hunk ending at `h` over every later change that starts within
/// twice the context of it.
pub open spec fn merge_end(ops: Seq<(OpKind, Seq<char>)>, h: int) -> int
    decreases ops.len() - h,
{
    if h < 0 || h > ops.len() {
        h
    } else {
        let k = skip_kept(ops, h);
        if k >= ops.len() || k - h >= 2 * CONTEXT {
            h
        } else {
            proof {
                lemma_skip_bounds(ops, h);
                lemma_change_end_bounds(ops, k);
            }
            merge_end(ops, change_end(ops, k))
        }
    }
}

pub proof fn lemma_merge_bounds(ops: Seq<(OpKind, Seq<char>)>, h: int)
    requires
        0 <= h <= ops.len(),
    ensures
        h <= merge_end(ops, h) <= ops.len(),
    decreases ops.len() - h,
{
    let k = skip_kept(ops, h);
    lemma_skip_bounds(ops, h);
    if !(k >= ops.len() || k - h >= 2 * CONTEXT) {
        lemma_change_end_bounds(ops, k);
        lemma_merge_bounds(ops, change_end(ops, k));
    }
}

/// One script line as it appears in a hunk: a ` `, `-` or `+` mark, the
/// line, and a newline.
pub open spec fn op_line(op: (OpKind, Seq<char>)) -> Seq<char> {
    let mark = match op.0 {
        OpKind::Eq => ' ',
        OpKind::Del => '-',
        OpKind::Ins => '+',
    };
    seq![mark] + op.1 + seq!['\n']
}

/// The marked lines of a stretch of script.
pub open spec fn body_text(ops: Seq<(OpKind, Seq<char>)>) -> Seq<char>
    decreases ops.len(),
{
    if ops.len() == 0 {
        seq![]
    } else {
        body_text(ops.drop_last()) + op_line(ops.last())
    }
}

/// `@@ -oh,oc +nh,nc @@` and a newline.
pub open spec fn hunk_header(oh: nat, oc: nat, nh: nat, nc: nat) -> Seq<char> {
    seq!['@', '@', ' ', '-'] + decimal(oh) + seq![','] + decimal(oc) + seq![' ', '+'] + decimal(
        nh,
    ) + seq![','] + decimal(nc) + seq![' ', '@', '@', '\n']
}

/// The hunk covering `ops[s..e]`, where the script starts at old line
/// `old_start` and new line `new_start` (0-based).
pub open spec fn hunk_text(
    ops: Seq<(OpKind, Seq<char>)>,
    s: int,
    e: int,
    old_start: nat,
    new_start: nat,
) -> Seq<char> {
    let o = old_start + old_side(ops.take(s)).len();
    let n = new_start + new_side(ops.take(s)).len();
    let seg = ops.subrange(s, e);
    let oc = old_side(seg).len();
    let nc = new_side(seg).len();
    let oh = if oc == 0 {
        o
    } else {
        o + 1
    };
    let nh = if nc == 0 {
        n
    } else {
        n + 1
    };
    hunk_header(oh, oc, nh, nc) + body_text(seg) + seq!['\n']
}

/// The hunks for the changes of `ops` at or after `i`, each followed by a
/// blank line.
pub open spec fn hunks_from(ops: Seq<(OpKind, Seq<char>)>, i: int, old_start: nat, new_start: nat) -> Seq<
    char,
>
    decreases ops.len() - i,
{
    if i < 0 || i > ops.len() {
        seq![]
    } else {
        let c = skip_kept(ops, i);
        if c >= ops.len() {
            seq![]
        } else {
            let s = lead_start(ops, c, 0);
            let e = merge_end(ops, change_end(ops, c));
            proof {
                lemma_skip_bounds(ops, i);
                lemma_change_end_bounds(ops, c);
                lemma_merge_bounds(ops, change_end(ops, c));
            }
            hunk_text(ops, s, e, old_start, new_start) + hunks_from(ops, e, old_start, new_start)
        }
    }
}

proof fn lemma_side_push(ops: Seq<(OpKind, Seq<char>)>, op: (OpKind, Seq<char>))
    ensures
        old_side(ops.push(op)) == (if op.0 == OpKind::Ins {
            old_side(ops)
        } else {
            old_side(ops).push(op.1)
        }),
        new_side(ops.push(op)) == (if op.0 == OpKind::Del {
            new_side(ops)
        } else {
            new_side(ops).push(op.1)
        }),
        body_text(ops.push(op)) == body_text(ops) + op_line(op),
{
    assert(ops.push(op).drop_last() =~= ops);
}

proof fn lemma_side_len(ops: Seq<(OpKind, Seq<char>)>)
    ensures
        old_side(ops).len() <= ops.len(),
        new_side(ops).len() <= ops.len(),
    decreases ops.len(),
{
    if ops.len() > 0 {
        lemma_side_len(ops.drop_last());
    }
}

fn skip_kept_at(ops: &Vec<Op>, i: usize) -> (r: usize)
    requires
        i <= ops@.len(),
    ensures
        r == skip_kept(ops_view(ops@), i as int),
{
    let ghost v = ops_view(ops@);
    let mut k = i;
    while k < ops.len() && ops[k].kind == OpKind::Eq
        invariant
            i <= k <= ops@.len(),
            v == ops_view(ops@),
            skip_kept(v, i as int) == skip_kept(v, k as int),
        decreases ops@.len() - k,
    {
        k += 1;
    }
    k
}

fn change_end_at(ops: &Vec<Op>, i: usize) -> (r: usize)
    requires
        i < ops@.len(),
        ops@[i as int].kind != OpKind::Eq,
    ensures
        r == change_end(ops_view(ops@), i as int),
        i < r <= ops@.len(),
{
    let ghost v = ops_view(ops@);
    proof {
        lemma_change_end_bounds(v, i as int);
    }
    let mut k = i;
    while k < ops.len() && ops[k].kind != OpKind::Eq
        invariant
            i <= k <= ops@.len(),
            v == ops_view(ops@),
            skip_changes(v, i as int) == skip_changes(v, k as int),
        decreases ops@.len() - k,
    {
        k += 1;
    }
    let mut ctx: usize = 0;
    while k < ops.len() && ctx < CONTEXT && ops[k].kind == OpKind::Eq
        invariant
            k <= ops@.len(),
            ctx <= CONTEXT,
            v == ops_view(ops@),
            change_end(v, i as int) == trail_end(v, k as int, ctx as int),
        decreases CONTEXT - ctx,
    {
        k += 1;
        ctx += 1;
    }
    k
}

fn lead_start_at(ops: &Vec<Op>, c: usize) -> (r: usize)
    requires
        c <= ops@.len(),
    ensures
        r == lead_start(ops_view(ops@), c as int, 0),
        r <= c,
{
    let ghost v = ops_view(ops@);
    let mut h = c;
    let mut back: usize = 0;
    while h > 0 && back < CONTEXT && ops[h - 1].kind == OpKind::Eq
        invariant
            h <= c <= ops@.len(),
            back <= CONTEXT,
            v == ops_view(ops@),
            lead_start(v, c as int, 0) == lead_start(v, h as int, back as int),
        decreases CONTEXT - back,
    {
        h -= 1;
        back += 1;
    }
    h
}

fn merge_end_at(ops: &Vec<Op>, start: usize) -> (r: usize)
    requires
        start <= ops@.len(),
    ensures
        r == merge_end(ops_view(ops@), start as int),
        start <= r <= ops@.len(),
{
    let ghost v = ops_view(ops@);
    let mut h = start;
    loop
        invariant_except_break
            start <= h <= ops@.len(),
            v == ops_view(ops@),
            merge_end(v, start as int) == merge_end(v, h as int),
        ensures
            start <= h <= ops@.len(),
            h == merge_end(v, start as int),
        decreases ops@.len() - h,
    {
        let k = skip_kept_at(ops, h);
        proof {
            lemma_skip_bounds(v, h as int);
        }
        if k >= ops.len() || k - h >= 2 * CONTEXT {
            break;
        }
        h = change_end_at(ops, k);
    }
    h
}

/// Numbers of old and new lines read and written by `ops[s..e]`.
fn side_counts(ops: &Vec<Op>, s: usize, e: usize) -> (r: (usize, usize))
    requires
        s <= e <= ops@.len(),
    ensures
        r.0 == old_side(ops_view(ops@).subrange(s as int, e as int)).len(),
        r.1 == new_side(ops_view(ops@).subrange(s as int, e as int)).len(),
{
    let ghost v = ops_view(ops@);
    let mut o: usize = 0;
    let mut n: usize = 0;
    let mut k = s;
    while k < e
        invariant
            s <= k <= e <= ops@.len(),
            v == ops_view(ops@),
            o == old_side(v.subrange(s as int, k as int)).len(),
            n == new_side(v.subrange(s as int, k as int)).len(),
        decreases e - k,
    {
        proof {
            assert(v.subrange(s as int, k + 1) =~= v.subrange(s as int, k as int).push(v[k as int]));
            lemma_side_push(v.subrange(s as int, k as int), v[k as int]);
            lemma_side_len(v.subrange(s as int, k as int));
        }
        match ops[k].kind {
            OpKind::Eq => {
                o += 1;
                n += 1;
            },
            OpKind::Del => {
                o += 1;
            },
            OpKind::Ins => {
                n += 1;
            },
        }
        k += 1;
    }
    (o, n)
}

fn push_header(out: &mut Vec<char>, oh: usize, oc: usize, nh: usize, nc: usize)
    ensures
        final(out)@ == old(out)@ + hunk_header(oh as nat, oc as nat, nh as nat, nc as nat),
{
    let ghost base = out@;
    out.push('@');
    out.push('@');
    out.push(' ');
    out.push('-');
    push_decimal(out, oh);
    out.push(',');
    push_decimal(out, oc);
    out.push(' ');
    out.push('+');
    push_decimal(out, nh);
    out.push(',');
    push_decimal(out, nc);
    out.push(' ');
    out.push('@');
    out.push('@');
    out.push('\n');
    assert(out@ =~= base + hunk_header(oh as nat, oc as nat, nh as nat, nc as nat));
}

fn push_hunk(out: &mut Vec<char>, ops: &Vec<Op>, s: usize, e: usize, old_start: usize, new_start: usize)
    requires
        s <= e <= ops@.len(),
        old_start + ops@.len() < usize::MAX,
        new_start + ops@.len() < usize::MAX,
    ensures
        final(out)@ == old(out)@ + hunk_text(
            ops_view(ops@),
            s as int,
            e as int,
            old_start as nat,
            new_start as nat,
        ),
{
    let ghost v = ops_view(ops@);
    let (ob, nb) = side_counts(ops, 0, s);
    let (oc, nc) = side_counts(ops, s, e);
    proof {
        assert(v.subrange(0, s as int) =~= v.take(s as int));
        lemma_side_len(v.take(s as int));
        lemma_side_len(v.subrange(s as int, e as int));
    }
    let o = old_start + ob;
    let n = new_start + nb;
    let oh = if oc == 0 {
        o
    } else {
        o + 1
    };
    let nh = if nc == 0 {
        n
    } else {
        n + 1
    };
    push_header(out, oh, oc, nh, nc);
    let ghost head = out@;
    let mut k = s;
    while k < e
        invariant
            s <= k <= e <= ops@.len(),
            v == ops_view(ops@),
            out@ == head + body_text(v.subrange(s as int, k as int)),
        decreases e - k,
    {
        proof {
            assert(v.subrange(s as int, k + 1) =~= v.subrange(s as int, k as int).push(v[k as int]));
            lemma_side_push(v.subrange(s as int, k as int), v[k as int]);
        }
        let mark = match ops[k].kind {
            OpKind::Eq => ' ',
            OpKind::Del => '-',
            OpKind::Ins => '+',
        };
        let ghost before = out@;
        out.push(mark);
        extend_chars(out, &ops[k].line);
        out.push('\n');
        assert(out@ =~= before + op_line(v[k as int]));
        k += 1;
    }
    out.push('\n');
}

/// Hunks with `CONTEXT` lines of context, merging changes whose contexts
/// would touch. `old_start`/`new_start` are the 0-based line numbers at which
/// the script begins.
pub fn build_hunks(ops: &Vec<Op>, old_start: usize, new_start: usize) -> (r: String)
    requires
        old_start + ops@.len() < usize::MAX,
        new_start + ops@.len() < usize::MAX,
    ensures
        r@ == hunks_from(ops_view(ops@), 0, old_start as nat, new_start as nat),
{
    let ghost v = ops_view(ops@);
    let mut out: Vec<char> = Vec::new();
    let mut i: usize = 0;
    while i < ops.len()
        invariant
            i <= ops@.len(),
            v == ops_view(ops@),
            old_start + ops@.len() < usize::MAX,
            new_start + ops@.len() < usize::MAX,
            hunks_from(v, 0, old_start as nat, new_start as nat) == out@ + hunks_from(
                v,
                i as int,
                old_start as nat,
                new_start as nat,
            ),
        decreases ops@.len() - i,
    {
        let c = skip_kept_at(ops, i);
        proof {
            lemma_skip_bounds(v, i as int);
        }
        if c >= ops.len() {
            i = c;
        } else {
            let s = lead_start_at(ops, c);
            let ce = change_end_at(ops, c);
            let e = merge_end_at(ops, ce);
            proof {
                assert(v[c as int].0 != OpKind::Eq);
                lemma_merge_bounds(v, ce as int);
            }
            let ghost before = out@;
            push_hunk(&mut out, ops, s, e, old_start, new_start);
            proof {
                assert(hunks_from(v, i as int, old_start as nat, new_start as nat) == hunk_text(
                    v,
                    s as int,
                    e as int,
                    old_start as nat,
                    new_start as nat,
                ) + hunks_from(v, e as int, old_start as nat, new_start as nat));
                assert(out@ + hunks_from(v, e as int, old_start as nat, new_start as nat) =~= before
                    + hunks_from(v, i as int, old_start as nat, new_start as nat));
            }
            i = e;
        }
    }
    string_of(&out)
}

/// Number of leading lines, from `p` on, that `a` and `b` share.
pub open spec fn common_prefix(a: Seq<Seq<char>>, b: Seq<Seq<char>>, p: int) -> int
    decreases a.len() - p,
{
    if p < 0 || p >= a.len() || p >= b.len() || a[p] != b[p] {
        p
    } else {
        common_prefix(a, b, p + 1)
    }
}

/// Number of trailing lines `a` and `b` share without reaching into the
/// first `p` lines, counting on from `s`.
pub open spec fn common_suffix(a: Seq<Seq<char>>, b: Seq<Seq<char>>, p: int, s: int) -> int
    decreases a.len() - s,
{
    if s < 0 || p < 0 || a.len() - s <= p || b.len() - s <= p || a[a.len() - s - 1] != b[b.len()
        - s - 1] {
        s
    } else {
        common_suffix(a, b, p, s + 1)
    }
}

/// The lines of a text: the pieces between newlines.
pub open spec fn lines_of(t: Seq<char>) -> Seq<Seq<char>> {
    split_on(t, '\n')
}

/// The unified diff of two texts: the changed middle (after the shared
/// leading and trailing lines), widened by `CONTEXT` lines on each side,
/// diffed and cut into hunks.
pub open spec fn unified(old: Seq<char>, new: Seq<char>) -> Seq<char> {
    let a = lines_of(old);
    let b = lines_of(new);
    let p = common_prefix(a, b, 0);
    let s = common_suffix(a, b, p, 0);
    let so = a.len() - s;
    let sn = b.len() - s;
    let lo = if p >= CONTEXT {
        p - CONTEXT
    } else {
        0
    };
    let hi_old = if so + CONTEXT <= a.len() {
        so + CONTEXT
    } else {
        a.len() as int
    };
    let hi_new = if sn + CONTEXT <= b.len() {
        sn + CONTEXT
    } else {
        b.len() as int
    };
    if hi_old <= lo && hi_new <= lo {
        seq![]
    } else {
        hunks_from(
            edit_script(a.subrange(lo, hi_old), b.subrange(lo, hi_new)),
            0,
            lo as nat,
            lo as nat,
        )
    }
}

pub proof fn lemma_prefix_bounds(a: Seq<Seq<char>>, b: Seq<Seq<char>>, p: int)
    requires
        0 <= p <= a.len(),
        p <= b.len(),
    ensures
        p <= common_prefix(a, b, p) <= a.len(),
        common_prefix(a, b, p) <= b.len(),
        forall|k: int| p <= k < common_prefix(a, b, p) ==> a[k] == b[k],
    decreases a.len() - p,
{
    if p < a.len() && p < b.len() && a[p] == b[p] {
        lemma_prefix_bounds(a, b, p + 1);
    }
}

pub proof fn lemma_suffix_bounds(a: Seq<Seq<char>>, b: Seq<Seq<char>>, p: int, s: int)
    requires
        0 <= s,
        0 <= p,
        s + p <= a.len(),
        s + p <= b.len(),
    ensures
        s <= common_suffix(a, b, p, s),
        common_suffix(a, b, p, s) + p <= a.len(),
        common_suffix(a, b, p, s) + p <= b.len(),
    decreases a.len() - s,
{
    if !(a.len() - s <= p || b.len() - s <= p || a[a.len() - s - 1] != b[b.len() - s - 1]) {
        lemma_suffix_bounds(a, b, p, s + 1);
    }
}

fn split_lines(t: &str) -> (r: Vec<Vec<char>>)
    ensures
        view2(r@) == lines_of(t@),
        r@.len() <= t@.len() + 1,
{
    let cs = chars_of(t);
    let r = split_chars(&cs, '\n');
    proof {
        lemma_split_count(t@, '\n');
    }
    r
}

fn sub_lines(v: &Vec<Vec<char>>, lo: usize, hi: usize) -> (r: Vec<Vec<char>>)
    requires
        lo <= hi <= v@.len(),
    ensures
        view2(r@) == view2(v@).subrange(lo as int, hi as int),
{
    let mut r: Vec<Vec<char>> = Vec::new();
    let mut k = lo;
    while k < hi
        invariant
            lo <= k <= hi <= v@.len(),
            view2(r@) =~= view2(v@).subrange(lo as int, k as int),
        decreases hi - k,
    {
        let ghost prev = r@;
        let line = slice_chars(&v[k], 0, v[k].len());
        assert(line@ =~= v@[k as int]@);
        r.push(line);
        assert(view2(r@) =~= view2(prev).push(v@[k as int]@));
        k += 1;
    }
    r
}

/// A unified diff between two texts (line-based, bounded LCS).
pub fn unified_diff(old: &str, new: &str) -> (r: String)
    requires
        old@.len() + new@.len() + 2 < usize::MAX,
    ensures
        r@ == unified(old@, new@),
{
    let old_lines = split_lines(old);
    let new_lines = split_lines(new);
    let ghost a = view2(old_lines@);
    let ghost b = view2(new_lines@);
    let mut p: usize = 0;
    while p < old_lines.len() && p < new_lines.len() && chars_eq(&old_lines[p], &new_lines[p])
        invariant
            p <= old_lines@.len(),
            p <= new_lines@.len(),
            a == view2(old_lines@),
            b == view2(new_lines@),
            common_prefix(a, b, 0) == common_prefix(a, b, p as int),
        decreases old_lines@.len() - p,
    {
        p += 1;
    }
    let mut so = old_lines.len();
    let mut sn = new_lines.len();
    while so > p && sn > p && chars_eq(&old_lines[so - 1], &new_lines[sn - 1])
        invariant
            p <= so <= old_lines@.len(),
            p <= sn <= new_lines@.len(),
            old_lines@.len() - so == new_lines@.len() - sn,
            a == view2(old_lines@),
            b == view2(new_lines@),
            common_suffix(a, b, p as int, 0) == common_suffix(
                a,
                b,
                p as int,
                old_lines@.len() - so,
            ),
        decreases so,
    {
        so -= 1;
        sn -= 1;
    }
    let lo = if p >= CONTEXT {
        p - CONTEXT
    } else {
        0
    };
    let hi_old = if old_lines.len() - so >= CONTEXT {
        so + CONTEXT
    } else {
        old_lines.len()
    };
    let hi_new = if new_lines.len() - sn >= CONTEXT {
        sn + CONTEXT
    } else {
        new_lines.len()
    };
    if hi_old <= lo && hi_new <= lo {
        return String::new();
    }
    let a_mid = sub_lines(&old_lines, lo, hi_old);
    let b_mid = sub_lines(&new_lines, lo, hi_new);
    let ops = lcs_ops(&a_mid, &b_mid);
    proof {
        law_edit_script_sides(view2(a_mid@), view2(b_mid@));
        lemma_side_len(ops_view(ops@));
        lemma_script_len(ops_view(ops@));
    }
    build_hunks(&ops, lo, lo)
}

proof fn lemma_script_len(ops: Seq<(OpKind, Seq<char>)>)
    ensures
        ops.len() <= old_side(ops).len() + new_side(ops).len(),
    decreases ops.len(),
{
    if ops.len() > 0 {
        lemma_script_len(ops.drop_last());
    }
}

/// `@@ -0,0 +1,n @@` then every line of `new` marked as added.
pub open spec fn all_added_text(new: Seq<char>) -> Seq<char> {
    let lines = lines_of(new);
    seq!['@', '@', ' ', '-', '0', ',', '0', ' ', '+', '1', ','] + decimal(lines.len()) + seq![
        ' ',
        '@',
        '@',
        '\n',
    ] + body_text(Seq::new(lines.len(), |k: int| (OpKind::Ins, lines[k])))
}

/// `@@ -1,n +0,0 @@` then every line of `old` marked as removed.
pub open spec fn all_deleted_text(old: Seq<char>) -> Seq<char> {
    let lines = lines_of(old);
    seq!['@', '@', ' ', '-', '1', ','] + decimal(lines.len()) + seq![
        ' ',
        '+',
        '0',
        ',',
        '0',
        ' ',
        '@',
        '@',
        '\n',
    ] + body_text(Seq::new(lines.len(), |k: int| (OpKind::Del, lines[k])))
}

fn push_marked_lines(out: &mut Vec<char>, lines: &Vec<Vec<char>>, kind: OpKind)
    ensures
        final(out)@ == old(out)@ + body_text(
            Seq::new(lines@.len(), |k: int| (kind, lines@[k]@)),
        ),
{
    let ghost base = out@;
    let ghost all = Seq::new(lines@.len(), |k: int| (kind, lines@[k]@));
    let mark = match kind {
        OpKind::Eq => ' ',
        OpKind::Del => '-',
        OpKind::Ins => '+',
    };
    for k in 0..lines.len()
        invariant
            all == Seq::new(lines@.len(), |k: int| (kind, lines@[k]@)),
            out@ == base + body_text(all.take(k as int)),
            mark == (match kind {
                OpKind::Eq => ' ',
                OpKind::Del => '-',
                OpKind::Ins => '+',
            }),
    {
        proof {
            assert(all.take(k + 1) =~= all.take(k as int).push(all[k as int]));
            lemma_side_push(all.take(k as int), all[k as int]);
        }
        let ghost before = out@;
        out.push(mark);
        extend_chars(out, &lines[k]);
        out.push('\n');
        assert(out@ =~= before + op_line(all[k as int]));
    }
    assert(all.take(lines@.len() as int) =~= all);
}

/// The diff of a created file: every line added.
pub fn all_added(new: &str) -> (r: String)
    ensures
        r@ == all_added_text(new@),
{
    let lines = split_lines(new);
    let mut out: Vec<char> = Vec::new();
    out.push('@');
    out.push('@');
    out.push(' ');
    out.push('-');
    out.push('0');
    out.push(',');
    out.push('0');
    out.push(' ');
    out.push('+');
    out.push('1');
    out.push(',');
    push_decimal(&mut out, lines.len());
    out.push(' ');
    out.push('@');
    out.push('@');
    out.push('\n');
    push_marked_lines(&mut out, &lines, OpKind::Ins);
    proof {
        assert(Seq::new(lines@.len(), |k: int| (OpKind::Ins, lines@[k]@)) =~= Seq::new(
            lines_of(new@).len(),
            |k: int| (OpKind::Ins, lines_of(new@)[k]),
        ));
    }
    string_of(&out)
}

/// The diff of a removed file: every line deleted.
pub fn all_deleted(old: &str) -> (r: String)
    ensures
        r@ == all_deleted_text(old@),
{
    let lines = split_lines(old);
    let mut out: Vec<char> = Vec::new();
    out.push('@');
    out.push('@');
    out.push(' ');
    out.push('-');
    out.push('1');
    out.push(',');
    push_decimal(&mut out, lines.len());
    out.push(' ');
    out.push('+');
    out.push('0');
    out.push(',');
    out.push('0');
    out.push(' ');
    out.push('@');
    out.push('@');
    out.push('\n');
    push_marked_lines(&mut out, &lines, OpKind::Del);
    proof {
        assert(Seq::new(lines@.len(), |k: int| (OpKind::Del, lines@[k]@)) =~= Seq::new(
            lines_of(old@).len(),
            |k: int| (OpKind::Del, lines_of(old@)[k]),
        ));
    }
    string_of(&out)
}

/// The contents a snapshot holds for a file: `None` when it was missing or
/// not text.
pub open spec fn content_view(c: Option<String>) -> Option<Seq<char>> {
    match c {
        Some(s) => Some(s@),
        None => None,
    }
}

/// The diff shown for one file, or `None` when its content did not change.
pub open spec fn file_diff(old: Option<Seq<char>>, new: Option<Seq<char>>) -> Option<Seq<char>> {
    if old == new {
        None
    } else {
        match (old, new) {
            (Some(o), Some(n)) => Some(unified(o, n)),
            (None, Some(n)) => Some(all_added_text(n)),
            (Some(o), None) => Some(all_deleted_text(o)),
            (None, None) => None,
        }
    }
}

/// The `(path, diff)` pairs for the first `k` snapshotted files.
pub open spec fn diffs_spec(
    before: Seq<(String, Option<String>)>,
    now: Seq<Option<String>>,
    k: int,
) -> Seq<(Seq<char>, Seq<char>)>
    decreases k,
{
    if k <= 0 {
        seq![]
    } else {
        let prev = diffs_spec(before, now, k - 1);
        match file_diff(content_view(before[k - 1].1), content_view(now[k - 1])) {
            Some(d) => prev.push((before[k - 1].0@, d)),
            None => prev,
        }
    }
}

/// The contents fit the diff's line arithmetic.
pub open spec fn diffable(old: Option<String>, new: Option<String>) -> bool {
    match (old, new) {
        (Some(o), Some(n)) => o@.len() + n@.len() + 2 < usize::MAX,
        _ => true,
    }
}

fn same_content(a: &Option<String>, b: &Option<String>) -> (r: bool)
    ensures
        r == (content_view(*a) == content_view(*b)),
{
    match (a, b) {
        (Some(x), Some(y)) => x.eq(y),
        (None, None) => true,
        _ => false,
    }
}

/// Unified diffs for files snapshotted before a mutation (`before`, with
/// each path's content then) against their content now (`now`, in the same
/// order), skipping files whose content did not change.
pub fn diffs_after(before: &[(String, Option<String>)], now: &[Option<String>]) -> (r: Vec<
    (String, String),
>)
    requires
        before@.len() == now@.len(),
        forall|k: int| 0 <= k < before@.len() ==> diffable(before@[k].1, #[trigger] now@[k]),
    ensures
        r@.len() == diffs_spec(before@, now@, before@.len() as int).len(),
        forall|k: int|
            0 <= k < r@.len() ==> ((#[trigger] r@[k]).0@, r@[k].1@) == diffs_spec(
                before@,
                now@,
                before@.len() as int,
            )[k],
{
    let mut out: Vec<(String, String)> = Vec::new();
    let mut i: usize = 0;
    while i < before.len()
        invariant
            i <= before@.len() == now@.len(),
            forall|k: int| 0 <= k < before@.len() ==> diffable(before@[k].1, #[trigger] now@[k]),
            out@.len() == diffs_spec(before@, now@, i as int).len(),
            forall|k: int|
                0 <= k < out@.len() ==> ((#[trigger] out@[k]).0@, out@[k].1@) == diffs_spec(
                    before@,
                    now@,
                    i as int,
                )[k],
        decreases before@.len() - i,
    {
        let path = &before[i].0;
        let old = &before[i].1;
        let new = &now[i];
        assert(diffable(before@[i as int].1, now@[i as int]));
        if !same_content(old, new) {
            let body = match (old, new) {
                (Some(o), Some(n)) => Some(unified_diff(o.as_str(), n.as_str())),
                (None, Some(n)) => Some(all_added(n.as_str())),
                (Some(o), None) => Some(all_deleted(o.as_str())),
                (None, None) => None,
            };
            if let Some(b) = body {
                out.push((path.clone(), b));
            }
        }
        i += 1;
    }
    out
}

proof fn lemma_prefix_same(a: Seq<Seq<char>>, p: int)
    requires
        0 <= p <= a.len(),
    ensures
        common_prefix(a, a, p) == a.len(),
    decreases a.len() - p,
{
    if p < a.len() {
        lemma_prefix_same(a, p + 1);
    }
}

proof fn lemma_all_kept_no_hunks(ops: Seq<(OpKind, Seq<char>)>, i: int, o: nat, n: nat)
    requires
        0 <= i <= ops.len(),
        forall|k: int| 0 <= k < ops.len() ==> (#[trigger] ops[k]).0 == OpKind::Eq,
    ensures
        skip_kept(ops, i) == ops.len(),
        hunks_from(ops, i, o, n) == Seq::<char>::empty(),
    decreases ops.len() - i,
{
    if i < ops.len() {
        lemma_all_kept_no_hunks(ops, i + 1, o, n);
    }
}

/// A text diffed against itself has no hunks.
pub proof fn law_unified_same(t: Seq<char>)
    ensures
        unified(t, t) == Seq::<char>::empty(),
{
    let a = lines_of(t);
    lemma_split_on_len(t, '\n');
    lemma_prefix_same(a, 0);
    let p = common_prefix(a, a, 0);
    assert(common_suffix(a, a, p, 0) == 0);
    let lo = if p >= CONTEXT {
        p - CONTEXT
    } else {
        0
    };
    let mid = a.subrange(lo, a.len() as int);
    assert(mid.len() * mid.len() <= LCS_CELLS) by (nonlinear_arith)
        requires
            mid.len() <= CONTEXT,
    ;
    law_edit_script_same(mid);
    lemma_all_kept_no_hunks(edit_script(mid, mid), 0, lo as nat, lo as nat);
}

/// The line `k` places from the end.
pub open spec fn from_end(a: Seq<Seq<char>>, k: int) -> Seq<char> {
    a[a.len() - 1 - k]
}

proof fn lemma_suffix_equal(a: Seq<Seq<char>>, b: Seq<Seq<char>>, p: int, s: int)
    requires
        0 <= s,
        0 <= p,
        s + p <= a.len(),
        s + p <= b.len(),
        forall|k: int| 0 <= k < s ==> #[trigger] from_end(a, k) == from_end(b, k),
    ensures
        forall|k: int| 0 <= k < common_suffix(a, b, p, s) ==> #[trigger] from_end(a, k) == from_end(b, k),
    decreases a.len() - s,
{
    if !(a.len() - s <= p || b.len() - s <= p || a[a.len() - s - 1] != b[b.len() - s - 1]) {
        lemma_suffix_equal(a, b, p, s + 1);
    }
}

proof fn lemma_all_kept_sides(ops: Seq<(OpKind, Seq<char>)>)
    requires
        forall|k: int| 0 <= k < ops.len() ==> (#[trigger] ops[k]).0 == OpKind::Eq,
    ensures
        old_side(ops) == new_side(ops),
    decreases ops.len(),
{
    if ops.len() > 0 {
        lemma_all_kept_sides(ops.drop_last());
    }
}

/// A diff is empty only between equal texts (with `law_unified_same`: the
/// diff of two texts is empty exactly when they are equal).
pub proof fn law_unified_empty_only_same(old: Seq<char>, new: Seq<char>)
    requires
        unified(old, new) == Seq::<char>::empty(),
    ensures
        old == new,
{
    let a = lines_of(old);
    let b = lines_of(new);
    lemma_prefix_bounds(a, b, 0);
    let p = common_prefix(a, b, 0);
    lemma_suffix_bounds(a, b, p, 0);
    lemma_suffix_equal(a, b, p, 0);
    let s = common_suffix(a, b, p, 0);
    let so = a.len() - s;
    let sn = b.len() - s;
    let lo = if p >= CONTEXT {
        p - CONTEXT
    } else {
        0
    };
    let hi_old = if so + CONTEXT <= a.len() {
        so + CONTEXT
    } else {
        a.len() as int
    };
    let hi_new = if sn + CONTEXT <= b.len() {
        sn + CONTEXT
    } else {
        b.len() as int
    };
    if hi_old <= lo && hi_new <= lo {
        assert(a.len() == p && b.len() == p);
        assert(a =~= b);
    } else {
        let ma = a.subrange(lo, hi_old);
        let mb = b.subrange(lo, hi_new);
        let ops = edit_script(ma, mb);
        lemma_skip_bounds(ops, 0);
        if skip_kept(ops, 0) < ops.len() {
            let c = skip_kept(ops, 0);
            lemma_change_end_bounds(ops, c);
            lemma_merge_bounds(ops, change_end(ops, c));
            let e = merge_end(ops, change_end(ops, c));
            let st = lead_start(ops, c, 0);
            assert(hunks_from(ops, 0, lo as nat, lo as nat) == hunk_text(ops, st, e, lo as nat, lo as nat) + hunks_from(
                ops,
                e,
                lo as nat,
                lo as nat,
            ));
            assert(hunk_text(ops, st, e, lo as nat, lo as nat).len() > 0);
            assert(false);
        }
        lemma_all_kept_sides(ops);
        law_edit_script_sides(ma, mb);
        assert(ma == mb);
        assert(a.len() == b.len());
        assert forall|k: int| 0 <= k < a.len() implies a[k] == b[k] by {
            if k < lo {
            } else if k < hi_old {
                assert(a[k] == ma[k - lo]);
                assert(b[k] == mb[k - lo]);
            } else {
                let j = a.len() - 1 - k;
                assert(0 <= j < s);
                assert(from_end(a, j) == from_end(b, j));
            }
        }
        assert(a =~= b);
    }
    crate::text::lemma_join_split(old, '\n');
    crate::text::lemma_join_split(new, '\n');
}

} // verus!
