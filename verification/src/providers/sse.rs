//! Framing of a `text/event-stream` body: records end at a blank line,
//! and each `data:` line of a record carries one payload.
use vstd::prelude::*;

use crate::text::{chars_of, slice_chars, starts_with, starts_with_chars, string_of, trim_chars, trim_spec};

verus! {

/// One payload of the stream.
pub enum SseItem {
    /// The text after `data:` (trimmed).
    Data(String),
    /// The `[DONE]` marker: the stream is over.
    Done,
}

pub enum SseItemV {
    Data(Seq<char>),
    Done,
}

pub open spec fn item_view(i: SseItem) -> SseItemV {
    match i {
        SseItem::Data(s) => SseItemV::Data(s@),
        SseItem::Done => SseItemV::Done,
    }
}

pub open spec fn items_view(v: Seq<SseItem>) -> Seq<SseItemV> {
    Seq::new(v.len(), |i: int| item_view(v[i]))
}

/// The first index at or after `i` where `b` holds a blank line (`\n\n`).
pub open spec fn boundary_from(b: Seq<u8>, i: int) -> Option<int>
    decreases b.len() - i,
{
    if i < 0 || i + 1 >= b.len() {
        None
    } else if b[i] == 10 && b[i + 1] == 10 {
        Some(i)
    } else {
        boundary_from(b, i + 1)
    }
}

/// The complete records of `b` (each without its blank line) and the
/// unfinished rest.
pub open spec fn sse_records(b: Seq<u8>) -> (Seq<Seq<u8>>, Seq<u8>)
    decreases b.len(),
{
    match boundary_from(b, 0) {
        Some(i) => if 0 <= i && i + 2 <= b.len() {
            let (rs, rest) = sse_records(b.skip(i + 2));
            (seq![b.take(i)] + rs, rest)
        } else {
            (seq![], b)
        },
        None => (seq![], b),
    }
}

/// The lines of a record: its bytes split at every `\n`.
pub open spec fn byte_lines(b: Seq<u8>) -> Seq<Seq<u8>>
    decreases b.len(),
{
    if b.len() == 0 {
        seq![seq![]]
    } else {
        let prev = byte_lines(b.drop_last());
        if b.last() == 10 {
            prev.push(seq![])
        } else {
            prev.update(prev.len() - 1, prev.last().push(b.last()))
        }
    }
}

/// What one line carries: the trimmed text after `data:` of a UTF-8 line,
/// or the end marker.
pub open spec fn line_item(line: Seq<u8>) -> Option<SseItemV> {
    if !vstd::utf8::valid_utf8(line) {
        None
    } else {
        let s = trim_spec(vstd::utf8::decode_utf8(line));
        if starts_with(s, "data:"@) {
            let d = trim_spec(s.skip(5));
            if d == "[DONE]"@ {
                Some(SseItemV::Done)
            } else {
                Some(SseItemV::Data(d))
            }
        } else {
            None
        }
    }
}

/// The payloads of some lines, in order.
pub open spec fn lines_items(ls: Seq<Seq<u8>>) -> Seq<SseItemV>
    decreases ls.len(),
{
    if ls.len() == 0 {
        seq![]
    } else {
        let prev = lines_items(ls.drop_last());
        match line_item(ls.last()) {
            Some(it) => prev.push(it),
            None => prev,
        }
    }
}

/// The payloads of some records, in order.
pub open spec fn records_items(rs: Seq<Seq<u8>>) -> Seq<SseItemV>
    decreases rs.len(),
{
    if rs.len() == 0 {
        seq![]
    } else {
        records_items(rs.drop_last()) + lines_items(byte_lines(rs.last()))
    }
}

/// The payloads up to and including the first end marker.
pub open spec fn until_done(v: Seq<SseItemV>) -> Seq<SseItemV>
    decreases v.len(),
{
    if v.len() == 0 {
        seq![]
    } else if v[0] is Done {
        seq![SseItemV::Done]
    } else {
        seq![v[0]] + until_done(v.drop_first())
    }
}

/// No end marker among the payloads.
pub open spec fn no_done(v: Seq<SseItemV>) -> bool {
    forall|i: int| 0 <= i < v.len() ==> !(#[trigger] v[i] is Done)
}

proof fn lemma_until_done_concat(a: Seq<SseItemV>, b: Seq<SseItemV>)
    requires
        no_done(a),
    ensures
        until_done(a + b) == a + until_done(b),
    decreases a.len(),
{
    if a.len() > 0 {
        lemma_until_done_concat(a.drop_first(), b);
        assert((a + b).drop_first() =~= a.drop_first() + b);
        assert((a + b)[0] == a[0]);
        assert(seq![a[0]] + (a.drop_first() + until_done(b)) =~= a + until_done(b));
    } else {
        assert(a + b =~= b);
        assert(a + until_done(b) =~= until_done(b));
    }
}

proof fn lemma_lines_items_concat(a: Seq<Seq<u8>>, b: Seq<Seq<u8>>)
    ensures
        lines_items(a + b) == lines_items(a) + lines_items(b),
    decreases b.len(),
{
    if b.len() > 0 {
        lemma_lines_items_concat(a, b.drop_last());
        assert((a + b).drop_last() =~= a + b.drop_last());
        assert((a + b).last() == b.last());
        match line_item(b.last()) {
            Some(it) => {
                assert(lines_items(a) + lines_items(b.drop_last()).push(it) =~= (lines_items(a) + lines_items(b.drop_last())).push(it));
            },
            None => {},
        }
    } else {
        assert(a + b =~= a);
        assert(lines_items(a) + lines_items(b) =~= lines_items(a));
    }
}

fn slice_bytes(v: &Vec<u8>, start: usize, end: usize) -> (r: Vec<u8>)
    requires
        start <= end <= v@.len(),
    ensures
        r@ == v@.subrange(start as int, end as int),
{
    let mut out: Vec<u8> = Vec::new();
    let mut k = start;
    while k < end
        invariant
            start <= k <= end,
            end <= v@.len(),
            out@ == v@.subrange(start as int, k as int),
        decreases end - k,
    {
        out.push(v[k]);
        k += 1;
        assert(out@ =~= v@.subrange(start as int, k as int));
    }
    out
}

fn byte_lines_of(b: &Vec<u8>) -> (r: Vec<Vec<u8>>)
    ensures
        Seq::new(r@.len(), |i: int| r@[i]@) == byte_lines(b@),
{
    let mut out: Vec<Vec<u8>> = Vec::new();
    out.push(Vec::new());
    assert(Seq::new(out@.len(), |i: int| out@[i]@) =~= byte_lines(b@.take(0)));
    for j in 0..b.len()
        invariant
            Seq::new(out@.len(), |i: int| out@[i]@) == byte_lines(b@.take(j as int)),
            out@.len() >= 1,
    {
        let ghost prev = Seq::new(out@.len(), |i: int| out@[i]@);
        assert(b@.take(j + 1).drop_last() =~= b@.take(j as int));
        assert(b@.take(j + 1).last() == b@[j as int]);
        if b[j] == 10 {
            out.push(Vec::new());
            assert(Seq::new(out@.len(), |i: int| out@[i]@) =~= prev.push(seq![]));
        } else {
            let last_i = out.len() - 1;
            let mut line = out.remove(last_i);
            line.push(b[j]);
            out.push(line);
            assert(Seq::new(out@.len(), |i: int| out@[i]@) =~= prev.update(prev.len() - 1, prev.last().push(b@[j as int])));
        }
    }
    assert(b@.take(b@.len() as int) =~= b@);
    out
}

/// Append the payloads of one record; true when it holds the end marker
/// (then only the payloads up to it are appended).
fn record_items_of(record: &Vec<u8>, out: &mut Vec<SseItem>) -> (r: bool)
    ensures
        ({
            let li = lines_items(byte_lines(record@));
            if no_done(li) {
                !r && items_view(final(out)@) == items_view(old(out)@) + li
            } else {
                r && items_view(final(out)@) == items_view(old(out)@) + until_done(li)
            }
        }),
{
    let ls = byte_lines_of(record);
    let ghost lv = Seq::new(ls@.len(), |i: int| ls@[i]@);
    let ghost base = items_view(out@);
    for m in 0..ls.len()
        invariant
            lv == Seq::new(ls@.len(), |i: int| ls@[i]@),
            lv == byte_lines(record@),
            base == items_view(old(out)@),
            items_view(out@) == base + lines_items(lv.take(m as int)),
            no_done(lines_items(lv.take(m as int))),
    {
        assert(lv.take(m + 1).drop_last() =~= lv.take(m as int));
        assert(lv.take(m + 1).last() == ls@[m as int]@);
        let ghost prev = items_view(out@);
        match line_item_of(ls[m].as_slice()) {
            Some(it) => {
                let is_done = match it {
                    SseItem::Done => true,
                    _ => false,
                };
                let ghost itv = item_view(it);
                out.push(it);
                assert(items_view(out@) =~= prev.push(itv));
                if is_done {
                    proof {
                        let a = lines_items(lv.take(m as int));
                        assert(lv =~= lv.take(m + 1) + lv.skip(m + 1));
                        lemma_lines_items_concat(lv.take(m + 1), lv.skip(m + 1));
                        let li = lines_items(lv);
                        assert(lines_items(lv.take(m + 1)) == a.push(SseItemV::Done));
                        assert(li == a.push(SseItemV::Done) + lines_items(lv.skip(m + 1)));
                        assert(a.push(SseItemV::Done) + lines_items(lv.skip(m + 1)) =~= a + (seq![SseItemV::Done] + lines_items(lv.skip(m + 1))));
                        lemma_until_done_concat(a, seq![SseItemV::Done] + lines_items(lv.skip(m + 1)));
                        assert(until_done(seq![SseItemV::Done] + lines_items(lv.skip(m + 1))) =~= seq![SseItemV::Done]);
                        assert(!no_done(li)) by {
                            assert(li[a.len() as int] is Done);
                        }
                        assert(itv == SseItemV::Done);
                        assert(items_view(out@) =~= base + a.push(SseItemV::Done));
                        assert(base + until_done(li) =~= base + a.push(SseItemV::Done));
                    }
                    return true;
                }
                assert(no_done(lines_items(lv.take(m + 1))));
            },
            None => {},
        }
    }
    assert(lv.take(ls@.len() as int) =~= lv);
    false
}

proof fn lemma_records_items_concat(a: Seq<Seq<u8>>, b: Seq<Seq<u8>>)
    ensures
        records_items(a + b) == records_items(a) + records_items(b),
    decreases b.len(),
{
    if b.len() > 0 {
        lemma_records_items_concat(a, b.drop_last());
        assert((a + b).drop_last() =~= a + b.drop_last());
        assert((a + b).last() == b.last());
        assert(records_items(a) + records_items(b.drop_last()) + lines_items(byte_lines(b.last())) =~= records_items(a) + (records_items(b.drop_last()) + lines_items(byte_lines(b.last()))));
    } else {
        assert(a + b =~= a);
        assert(records_items(a) + records_items(b) =~= records_items(a));
    }
}

/// When `a` holds an end marker, what follows it does not matter.
proof fn lemma_until_done_first(a: Seq<SseItemV>, b: Seq<SseItemV>)
    requires
        !no_done(a),
    ensures
        until_done(a + b) == until_done(a),
    decreases a.len(),
{
    if a[0] is Done {
        assert((a + b)[0] is Done);
    } else {
        assert(!no_done(a.drop_first())) by {
            let i = choose|i: int| 0 <= i < a.len() && (#[trigger] a[i] is Done);
            assert(a.drop_first()[i - 1] is Done);
        }
        lemma_until_done_first(a.drop_first(), b);
        assert((a + b).drop_first() =~= a.drop_first() + b);
    }
}

proof fn lemma_boundary_prefix(x: Seq<u8>, y: Seq<u8>, i: int)
    requires
        0 <= i,
        boundary_from(x, i) is Some,
    ensures
        boundary_from(x + y, i) == boundary_from(x, i),
    decreases x.len() - i,
{
    if i + 1 < x.len() && !(x[i] == 10 && x[i + 1] == 10) {
        lemma_boundary_prefix(x, y, i + 1);
    }
}

proof fn lemma_boundary_bounds(x: Seq<u8>, i: int)
    requires
        0 <= i,
    ensures
        boundary_from(x, i) matches Some(j) ==> i <= j && j + 2 <= x.len(),
    decreases x.len() - i,
{
    if i + 1 < x.len() && !(x[i] == 10 && x[i + 1] == 10) {
        lemma_boundary_bounds(x, i + 1);
    }
}

/// Framing does not depend on how the bytes arrive: the records of a body
/// taken in two pieces are those of the whole, and what is left over is
/// the same.
pub proof fn law_sse_chunking(x: Seq<u8>, y: Seq<u8>)
    ensures
        sse_records(x + y) == (sse_records(x).0 + sse_records(sse_records(x).1 + y).0, sse_records(
            sse_records(x).1 + y,
        ).1),
    decreases x.len(),
{
    lemma_boundary_bounds(x, 0);
    match boundary_from(x, 0) {
        Some(i) => {
            lemma_boundary_prefix(x, y, 0);
            assert((x + y).skip(i + 2) =~= x.skip(i + 2) + y);
            assert((x + y).take(i) =~= x.take(i));
            law_sse_chunking(x.skip(i + 2), y);
            let (rs, rest) = sse_records(x.skip(i + 2));
            assert(seq![x.take(i)] + (rs + sse_records(rest + y).0) =~= (seq![x.take(i)] + rs) + sse_records(rest + y).0);
        },
        None => {
            assert(sse_records(x) == (Seq::<Seq<u8>>::empty(), x));
            assert(Seq::<Seq<u8>>::empty() + sse_records(x + y).0 =~= sse_records(x + y).0);
        },
    }
}

/// Splits a `text/event-stream` body into payloads as its bytes arrive.
pub struct SseDecoder {
    /// Bytes of the record still being received.
    pub buf: Vec<u8>,
}

fn line_item_of(line: &[u8]) -> (r: Option<SseItem>)
    ensures
        match line_item(line@) {
            Some(it) => r matches Some(x) && item_view(x) == it,
            None => r is None,
        },
{
    let mut v: Vec<u8> = Vec::new();
    let mut k: usize = 0;
    while k < line.len()
        invariant
            k <= line@.len(),
            v@ == line@.take(k as int),
        decreases line.len() - k,
    {
        v.push(line[k]);
        k += 1;
        assert(v@ =~= line@.take(k as int));
    }
    assert(line@.take(k as int) =~= line@);
    let s = match crate::text::utf8_text(v) {
        Some(s) => s,
        None => return None,
    };
    let t = trim_chars(&chars_of(s.as_str()));
    proof {
        reveal_strlit("data:");
        reveal_strlit("[DONE]");
    }
    if !starts_with_chars(&t, &chars_of("data:")) {
        return None;
    }
    let rest = slice_chars(&t, 5, t.len());
    assert(rest@ =~= t@.skip(5));
    let d = trim_chars(&rest);
    if crate::text::eq_str(&d, "[DONE]") {
        Some(SseItem::Done)
    } else {
        Some(SseItem::Data(string_of(&d)))
    }
}

impl SseDecoder {
    pub fn new() -> (r: SseDecoder)
        ensures
            r.buf@.len() == 0,
    {
        SseDecoder { buf: Vec::new() }
    }

    /// Take in the next bytes of the body. Returns the payloads of the
    /// records they complete, in order, up to and including an end marker;
    /// the unfinished record is kept for the next call.
    pub fn push(&mut self, chunk: &[u8]) -> (r: Vec<SseItem>)
        ensures
            ({
                let (rs, rest) = sse_records(old(self).buf@ + chunk@);
                &&& items_view(r@) == until_done(records_items(rs))
                &&& (no_done(records_items(rs)) ==> final(self).buf@ == rest)
            }),
    {
        let mut k: usize = 0;
        while k < chunk.len()
            invariant
                k <= chunk@.len(),
                self.buf@ == old(self).buf@ + chunk@.take(k as int),
            decreases chunk.len() - k,
        {
            self.buf.push(chunk[k]);
            k += 1;
            assert(self.buf@ =~= old(self).buf@ + chunk@.take(k as int));
        }
        assert(chunk@.take(k as int) =~= chunk@);
        let ghost all = self.buf@;
        let mut out: Vec<SseItem> = Vec::new();
        let mut rest: Vec<u8> = Vec::new();
        std::mem::swap(&mut rest, &mut self.buf);
        let ghost mut done_rs: Seq<Seq<u8>> = seq![];
        loop
            invariant
                all == old(self).buf@ + chunk@,
                sse_records(all) == (done_rs + sse_records(rest@).0, sse_records(rest@).1),
                items_view(out@) == records_items(done_rs),
                no_done(items_view(out@)),
                self.buf@.len() == 0,
            decreases rest@.len(),
        {
            // Find the next blank line.
            let n = rest.len();
            let mut i: usize = 0;
            while n >= 2 && i < n - 1 && !(rest[i] == 10 && rest[i + 1] == 10)
                invariant
                    n == rest@.len(),
                    boundary_from(rest@, 0) == boundary_from(rest@, i as int),
                decreases n - i,
            {
                i += 1;
            }
            if n < 2 || i >= n - 1 {
                assert(boundary_from(rest@, i as int) is None);
                proof {
                    assert(sse_records(rest@) == (Seq::<Seq<u8>>::empty(), rest@));
                    assert(done_rs + Seq::<Seq<u8>>::empty() =~= done_rs);
                    lemma_until_done_concat(records_items(done_rs), seq![]);
                    assert(records_items(done_rs) + Seq::<SseItemV>::empty() =~= records_items(done_rs));
                }
                self.buf = rest;
                return out;
            }
            let record = slice_bytes(&rest, 0, i);
            let tail = slice_bytes(&rest, i + 2, n);
            proof {
                assert(record@ =~= rest@.take(i as int));
                assert(tail@ =~= rest@.skip(i + 2));
                assert(sse_records(rest@) == (seq![rest@.take(i as int)] + sse_records(tail@).0, sse_records(tail@).1));
                assert(done_rs + (seq![record@] + sse_records(tail@).0) =~= done_rs.push(record@) + sse_records(tail@).0);
            }
            let ghost before = items_view(out@);
            let stop = record_items_of(&record, &mut out);
            proof {
                let li = lines_items(byte_lines(record@));
                assert(records_items(done_rs.push(record@)) == records_items(done_rs) + li) by {
                    assert(done_rs.push(record@).drop_last() =~= done_rs);
                }
            }
            if stop {
                proof {
                    let li = lines_items(byte_lines(record@));
                    let all_items = records_items(sse_records(all).0);
                    // all records: done_rs, record, then those of tail.
                    lemma_records_items_concat(done_rs.push(record@), sse_records(tail@).0);
                    assert(all_items == records_items(done_rs) + li + records_items(sse_records(tail@).0));
                    assert(records_items(done_rs) + li + records_items(sse_records(tail@).0) =~= records_items(done_rs) + (li + records_items(sse_records(tail@).0)));
                    lemma_until_done_concat(records_items(done_rs), li + records_items(sse_records(tail@).0));
                    lemma_until_done_first(li, records_items(sse_records(tail@).0));
                    assert(items_view(out@) == records_items(done_rs) + until_done(li));
                    assert(sse_records(all).0 == done_rs.push(record@) + sse_records(tail@).0);
                    assert(!no_done(li));
                    let j = choose|j: int| 0 <= j < li.len() && (#[trigger] li[j] is Done);
                    let whole = records_items(done_rs) + li + records_items(sse_records(tail@).0);
                    assert(whole[records_items(done_rs).len() + j] == li[j]);
                    assert(!no_done(whole));
                }
                self.buf = tail;
                return out;
            }
            rest = tail;
            proof {
                done_rs = done_rs.push(record@);
            }
        }
    }
}

} // verus!
