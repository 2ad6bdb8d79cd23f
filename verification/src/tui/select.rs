//! Mouse selection over the conversation view.
use vstd::prelude::*;

use crate::text::{byte_len, chars_of, push_str_chars, slice_chars, string_of};
use crate::unicode::{char_width, char_width_of, display_width, width_of};

verus! {

/// `a` before or at `b`, row first (tuple order).
pub open spec fn point_le(a: (usize, usize), b: (usize, usize)) -> bool {
    a.0 < b.0 || (a.0 == b.0 && a.1 <= b.1)
}

/// Normalize an unordered (anchor, focus) pair into (start, end).
pub fn sel_normalized(a: (usize, usize), b: (usize, usize)) -> (r: ((usize, usize), (usize, usize)))
    ensures
        r == if point_le(a, b) {
            (a, b)
        } else {
            (b, a)
        },
{
    if a.0 < b.0 || (a.0 == b.0 && a.1 <= b.1) {
        (a, b)
    } else {
        (b, a)
    }
}

/// Normalizing does not depend on the direction of the drag, and puts the
/// start first.
pub proof fn law_selection_direction(a: (usize, usize), b: (usize, usize))
    ensures
        (if point_le(a, b) { (a, b) } else { (b, a) }) == (if point_le(b, a) { (b, a) } else { (a, b) }),
        point_le(
            (if point_le(a, b) { a } else { b }),
            (if point_le(a, b) { b } else { a }),
        ),
{
}

/// Display width of a string in terminal columns.
pub fn line_width(text: &str) -> (r: usize)
    ensures
        r == display_width(text@),
{
    width_of(&chars_of(text))
}

/// The columns a character takes: its width, or one for a control character.
pub open spec fn cw(c: char) -> nat {
    match char_width(c) {
        Some(w) => w,
        None => 1,
    }
}

pub fn cw_of(c: char) -> (r: usize)
    ensures
        r == cw(c),
{
    match char_width_of(c) {
        Some(w) => w,
        None => 1,
    }
}

/// The index of the first character, from `i` on with `w` columns before it,
/// that reaches past column `col`; the length when none does.
pub open spec fn col_index(s: Seq<char>, col: nat, i: nat, w: nat) -> nat
    decreases s.len() - i,
{
    if i >= s.len() {
        s.len()
    } else if w + cw(s[i as int]) > col {
        i
    } else {
        col_index(s, col, i + 1, w + cw(s[i as int]))
    }
}

proof fn lemma_col_index(s: Seq<char>, col: nat, i: nat, w: nat)
    requires
        i <= s.len(),
    ensures
        i <= col_index(s, col, i, w) <= s.len(),
    decreases s.len() - i,
{
    if i < s.len() && w + cw(s[i as int]) <= col {
        lemma_col_index(s, col, i + 1, w + cw(s[i as int]));
    }
}

/// The character index at display column `col`.
fn col_char_index(s: &[char], col: usize) -> (r: usize)
    ensures
        r == col_index(s@, col as nat, 0, 0),
        r <= s@.len(),
{
    proof {
        lemma_col_index(s@, col as nat, 0, 0);
    }
    let mut w: usize = 0;
    let mut i: usize = 0;
    while i < s.len()
        invariant
            i <= s@.len(),
            w <= col,
            col_index(s@, col as nat, 0, 0) == col_index(s@, col as nat, i as nat, w as nat),
        decreases s.len() - i,
    {
        let c = cw_of(s[i]);
        if c > col - w {
            return i;
        }
        w = w + c;
        i += 1;
    }
    i
}

/// The byte index in `text` at display column `col`.
pub open spec fn col_to_char_spec(text: Seq<char>, col: nat) -> nat {
    byte_len(text.take(col_index(text, col, 0, 0) as int))
}

/// Map a display column to a byte index in `text`: the start of the first
/// character that reaches past `col`, or the length when none does.
pub fn col_to_char(text: &str, col: usize) -> (r: usize)
    ensures
        r == col_to_char_spec(text@, col as nat),
{
    let v = chars_of(text);
    let i = col_char_index(&v, col);
    let n = crate::text::str_byte_len(text);
    let head = slice_chars(&v, 0, i);
    proof {
        assert(head@ =~= v@.take(i as int));
        assert(v@.take(i as int) + v@.skip(i as int) =~= v@);
        crate::text::lemma_byte_len_concat(v@.take(i as int), v@.skip(i as int));
    }
    crate::text::chars_byte_len(&head)
}

/// The characters from `i` on (with `w` columns before them) whose columns
/// reach into `[from, to)`.
pub open spec fn cols_slice(s: Seq<char>, from: nat, to: nat, i: nat, w: nat) -> Seq<char>
    decreases s.len() - i,
{
    if i >= s.len() || w >= to {
        seq![]
    } else {
        let c = s[i as int];
        (if w + cw(c) > from {
            seq![c]
        } else {
            seq![]
        }) + cols_slice(s, from, to, i + 1, w + cw(c))
    }
}

fn slice_cols_chars(s: &[char], from: usize, to: usize) -> (r: Vec<char>)
    ensures
        r@ == cols_slice(s@, from as nat, to as nat, 0, 0),
{
    let mut out: Vec<char> = Vec::new();
    let mut w: usize = 0;
    let ghost mut wt: nat = 0;
    let mut i: usize = 0;
    while i < s.len() && w < to
        invariant
            i <= s@.len(),
            w as nat == wt || (w == usize::MAX && wt >= to),
            out@ + cols_slice(s@, from as nat, to as nat, i as nat, wt) == cols_slice(
                s@,
                from as nat,
                to as nat,
                0,
                0,
            ),
        decreases s.len() - i,
    {
        let c = s[i];
        let k = cw_of(c);
        let ghost rest = cols_slice(s@, from as nat, to as nat, (i + 1) as nat, (wt + k) as nat);
        let ghost prev = out@;
        if w > from || k > from - w {
            out.push(c);
            assert(out@ + rest =~= prev + (seq![c] + rest));
        } else {
            assert(out@ + rest =~= prev + (Seq::<char>::empty() + rest));
        }
        if k > usize::MAX - w {
            w = usize::MAX;
        } else {
            w = w + k;
        }
        proof {
            wt = (wt + k) as nat;
        }
        i += 1;
    }
    assert(cols_slice(s@, from as nat, to as nat, i as nat, wt) == Seq::<char>::empty());
    assert(out@ + Seq::<char>::empty() =~= out@);
    out
}

/// Slice `text` to the display-column range `[from, to)`.
pub fn slice_by_cols(text: &str, from: usize, to: usize) -> (r: String)
    ensures
        r@ == cols_slice(text@, from as nat, to as nat, 0, 0),
{
    string_of(&slice_cols_chars(&chars_of(text), from, to))
}

/// The terminal rows of line `li` with `w` columns, from column `cf` on:
/// chunks of `width` columns, the last one shorter.
pub open spec fn row_chunks(li: nat, cf: nat, w: nat, width: nat) -> Seq<(usize, usize, usize)>
    decreases w - cf,
{
    if cf >= w || width == 0 {
        seq![]
    } else {
        let ct: nat = if cf + width < w {
            cf + width
        } else {
            w
        };
        seq![(li as usize, cf as usize, ct as usize)] + row_chunks(li, ct, w, width)
    }
}

/// The rows of one line: one empty row for a line of no width.
pub open spec fn line_rows(li: nat, w: nat, width: nat) -> Seq<(usize, usize, usize)> {
    if w == 0 {
        seq![(li as usize, 0usize, 0usize)]
    } else {
        row_chunks(li, 0, w, width)
    }
}

/// Terminal wrapping of lines: one entry per terminal row,
/// `(line_idx, col_from, col_to)` into that line's display columns.
pub open spec fn wrap_rows_spec(lines: Seq<Seq<char>>, width: nat) -> Seq<(usize, usize, usize)>
    decreases lines.len(),
{
    if lines.len() == 0 {
        seq![]
    } else {
        wrap_rows_spec(lines.drop_last(), width) + line_rows(
            (lines.len() - 1) as nat,
            display_width(lines.last()),
            if width < 1 {
                1
            } else {
                width
            },
        )
    }
}

proof fn lemma_row_chunks(li: nat, cf: nat, w: nat, width: nat)
    requires
        li <= usize::MAX,
    ensures
        forall|k: int| 0 <= k < row_chunks(li, cf, w, width).len() ==> (#[trigger] row_chunks(li, cf, w, width)[k]).0 as nat == li,
    decreases w - cf,
{
    if !(cf >= w || width == 0) {
        let ct: nat = if cf + width < w {
            cf + width
        } else {
            w
        };
        lemma_row_chunks(li, ct, w, width);
        assert forall|k: int| 0 <= k < row_chunks(li, cf, w, width).len() implies (#[trigger] row_chunks(li, cf, w, width)[k]).0 as nat == li by {
            if k > 0 {
                assert(row_chunks(li, cf, w, width)[k] == row_chunks(li, ct, w, width)[k - 1]);
            }
        }
    }
}

proof fn lemma_wrap_rows_line(lines: Seq<Seq<char>>, width: nat)
    requires
        lines.len() <= usize::MAX,
    ensures
        forall|k: int| 0 <= k < wrap_rows_spec(lines, width).len() ==> (#[trigger] wrap_rows_spec(lines, width)[k]).0 < lines.len(),
    decreases lines.len(),
{
    if lines.len() > 0 {
        let li = (lines.len() - 1) as nat;
        let wd: nat = if width < 1 {
            1
        } else {
            width
        };
        lemma_wrap_rows_line(lines.drop_last(), width);
        lemma_row_chunks(li, 0, display_width(lines.last()), wd);
        let a = wrap_rows_spec(lines.drop_last(), width);
        let b = line_rows(li, display_width(lines.last()), wd);
        assert forall|k: int| 0 <= k < wrap_rows_spec(lines, width).len() implies (#[trigger] wrap_rows_spec(lines, width)[k]).0 < lines.len() by {
            if k < a.len() {
                assert(wrap_rows_spec(lines, width)[k] == a[k]);
            } else {
                assert(wrap_rows_spec(lines, width)[k] == b[k - a.len()]);
            }
        }
    }
}

fn push_line_rows(out: &mut Vec<(usize, usize, usize)>, li: usize, w: usize, width: usize)
    requires
        width >= 1,
    ensures
        final(out)@ == old(out)@ + line_rows(li as nat, w as nat, width as nat),
{
    if w == 0 {
        out.push((li, 0, 0));
        assert(final(out)@ =~= old(out)@ + line_rows(li as nat, w as nat, width as nat));
        return;
    }
    let mut cf: usize = 0;
    while cf < w
        invariant
            width >= 1,
            cf <= w,
            out@ + row_chunks(li as nat, cf as nat, w as nat, width as nat) == old(out)@ + row_chunks(
                li as nat,
                0,
                w as nat,
                width as nat,
            ),
        decreases w - cf,
    {
        let ct = if width < w - cf {
            cf + width
        } else {
            w
        };
        let ghost prev = out@;
        out.push((li, cf, ct));
        assert(out@ + row_chunks(li as nat, ct as nat, w as nat, width as nat) =~= prev + row_chunks(
            li as nat,
            cf as nat,
            w as nat,
            width as nat,
        ));
        cf = ct;
    }
    assert(out@ + row_chunks(li as nat, cf as nat, w as nat, width as nat) =~= out@);
}

/// Simulate terminal wrapping of the content lines: one entry per terminal
/// row, `(line_idx, col_from, col_to)` into that line's display columns.
pub fn wrap_rows(lines: &[String], width: usize) -> (r: Vec<(usize, usize, usize)>)
    ensures
        r@ == wrap_rows_spec(crate::goal::strs(lines@), width as nat),
        forall|k: int| 0 <= k < r@.len() ==> (#[trigger] r@[k]).0 < lines@.len(),
{
    let wd = if width < 1 {
        1
    } else {
        width
    };
    let ghost lv = crate::goal::strs(lines@);
    let mut out: Vec<(usize, usize, usize)> = Vec::new();
    for li in 0..lines.len()
        invariant
            lv == crate::goal::strs(lines@),
            wd >= 1,
            wd == (if width < 1 {
                1
            } else {
                width
            }),
            out@ == wrap_rows_spec(lv.take(li as int), width as nat),
    {
        assert(lv.take(li + 1).drop_last() =~= lv.take(li as int));
        let w = line_width(lines[li].as_str());
        push_line_rows(&mut out, li, w, wd);
    }
    assert(lv.take(lines@.len() as int) =~= lv);
    proof {
        lemma_wrap_rows_line(lv, width as nat);
        assert(lv.len() == lines@.len());
    }
    out
}

pub open spec fn min_nat(a: nat, b: nat) -> nat {
    if a < b {
        a
    } else {
        b
    }
}

/// What one terminal row contributes to the selected text: the part of its
/// segment inside the selection, with a newline after every row but the
/// last one selected.
pub open spec fn row_piece(
    lines: Seq<Seq<char>>,
    row: (usize, usize, usize),
    r: nat,
    s: (usize, usize),
    e: (usize, usize),
    s_row: nat,
    e_row: nat,
) -> Seq<char> {
    if r < s_row || r > e_row {
        seq![]
    } else {
        let seg = cols_slice(lines[row.0 as int], row.1 as nat, row.2 as nat, 0, 0);
        let seg_w: nat = if row.2 >= row.1 {
            (row.2 - row.1) as nat
        } else {
            0
        };
        let a = col_index(seg, min_nat(s.1 as nat, seg_w), 0, 0);
        let b = col_index(seg, min_nat(e.1 as nat, seg_w), 0, 0);
        if r == s_row && r == e_row {
            if a <= b {
                seg.subrange(a as int, b as int)
            } else {
                seq![]
            }
        } else if r == s_row {
            seg.skip(a as int).push('\n')
        } else if r == e_row {
            seg.take(b as int)
        } else {
            seg.push('\n')
        }
    }
}

pub open spec fn extract_rows(
    lines: Seq<Seq<char>>,
    rows: Seq<(usize, usize, usize)>,
    s: (usize, usize),
    e: (usize, usize),
    s_row: nat,
    e_row: nat,
) -> Seq<char>
    decreases rows.len(),
{
    if rows.len() == 0 {
        seq![]
    } else {
        extract_rows(lines, rows.drop_last(), s, e, s_row, e_row) + row_piece(
            lines,
            rows.last(),
            (rows.len() - 1) as nat,
            s,
            e,
            s_row,
            e_row,
        )
    }
}

/// The selected text of the wrapped content: rows between the selection's
/// start and end rows (shifted by `scroll`), cut at its columns.
pub open spec fn extract_spec(lines: Seq<Seq<char>>, width: nat, scroll: nat, sel: ((usize, usize), (usize, usize))) -> Seq<char> {
    let (s, e) = if point_le(sel.0, sel.1) {
        (sel.0, sel.1)
    } else {
        (sel.1, sel.0)
    };
    extract_rows(lines, wrap_rows_spec(lines, width), s, e, (s.0 + scroll) as nat, (e.0 + scroll) as nat)
}

/// Extract the mouse-selected text from the rendered content.
pub fn extract_text(lines: &[String], width: usize, scroll: usize, sel: &((usize, usize), (usize, usize))) -> (r: String)
    requires
        sel.0.0 + scroll <= usize::MAX,
        sel.1.0 + scroll <= usize::MAX,
    ensures
        r@ == extract_spec(crate::goal::strs(lines@), width as nat, scroll as nat, *sel),
{
    let (s, e) = sel_normalized(sel.0, sel.1);
    let s_row = s.0 + scroll;
    let e_row = e.0 + scroll;
    let rows = wrap_rows(lines, width);
    let ghost lv = crate::goal::strs(lines@);
    let mut out: Vec<char> = Vec::new();
    for r in 0..rows.len()
        invariant
            lv == crate::goal::strs(lines@),
            forall|k: int| 0 <= k < rows@.len() ==> (#[trigger] rows@[k]).0 < lines@.len(),
            out@ == extract_rows(lv, rows@.take(r as int), s, e, s_row as nat, e_row as nat),
    {
        assert(rows@.take(r + 1).drop_last() =~= rows@.take(r as int));
        let (li, cf, ct) = rows[r];
        assert(rows@.take(r + 1).last() == rows@[r as int]);
        if s_row <= r && r <= e_row {
            let text = chars_of(lines[li].as_str());
            let seg = slice_cols_chars(&text, cf, ct);
            let seg_w = if ct >= cf {
                ct - cf
            } else {
                0
            };
            let a = col_char_index(&seg, if s.1 < seg_w {
                s.1
            } else {
                seg_w
            });
            let b = col_char_index(&seg, if e.1 < seg_w {
                e.1
            } else {
                seg_w
            });
            let ghost prev = out@;
            if r == s_row && r == e_row {
                if a <= b {
                    let piece = slice_chars(&seg, a, b);
                    crate::text::extend_chars(&mut out, &piece);
                } else {
                    assert(out@ =~= prev + Seq::<char>::empty());
                }
            } else if r == s_row {
                let piece = slice_chars(&seg, a, seg.len());
                assert(piece@ =~= seg@.skip(a as int));
                crate::text::extend_chars(&mut out, &piece);
                out.push('\n');
                assert(out@ =~= prev + seg@.skip(a as int).push('\n'));
            } else if r == e_row {
                let piece = slice_chars(&seg, 0, b);
                assert(piece@ =~= seg@.take(b as int));
                crate::text::extend_chars(&mut out, &piece);
            } else {
                crate::text::extend_chars(&mut out, &seg);
                out.push('\n');
                assert(out@ =~= prev + seg@.push('\n'));
            }
        }
    }
    assert(rows@.take(rows@.len() as int) =~= rows@);
    string_of(&out)
}

} // verus!
