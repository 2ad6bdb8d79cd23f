//! Markdown-ish text to styled items: paragraphs, headings, lists, inline
//! code, bold, and code fences.
use vstd::prelude::*;

use crate::text::{
    chars_of, is_digit, slice_chars, split_chars, split_on, split_str, split_str_of, starts_with,
    starts_with_chars, string_of, trim_chars, trim_end_spec, trim_spec, trim_start_spec, view2,
};

verus! {

/// How a span is drawn.
#[derive(Debug, Clone, Copy, PartialEq, Eq, Structural)]
pub enum SpanStyle {
    Plain,
    /// Inline code.
    Code,
    Bold,
    Heading,
}

/// A run of text with one style.
#[derive(Debug, Clone)]
pub struct Span {
    pub content: String,
    pub style: SpanStyle,
}

/// A rendered markdown item. Code fences become dedicated `Code` blocks so the
/// TUI can draw them with a border, line numbers, and a language header.
#[derive(Debug, Clone)]
pub enum MdItem {
    /// One line of prose, as its spans.
    Prose(Vec<Span>),
    Code { lang: Option<String>, lines: Vec<String> },
}

pub type SpanV = (Seq<char>, SpanStyle);

pub enum MdItemView {
    Prose(Seq<SpanV>),
    Code(Option<Seq<char>>, Seq<Seq<char>>),
}

pub open spec fn spans_view(v: Seq<Span>) -> Seq<SpanV> {
    Seq::new(v.len(), |i: int| (v[i].content@, v[i].style))
}

pub open spec fn item_view(item: MdItem) -> MdItemView {
    match item {
        MdItem::Prose(s) => MdItemView::Prose(spans_view(s@)),
        MdItem::Code { lang, lines } => MdItemView::Code(
            match lang {
                Some(l) => Some(l@),
                None => None,
            },
            crate::goal::strs(lines@),
        ),
    }
}

pub open spec fn items_view(v: Seq<MdItem>) -> Seq<MdItemView> {
    Seq::new(v.len(), |i: int| item_view(v[i]))
}

/// `s` without the leading run of `c`.
pub open spec fn strip_lead(s: Seq<char>, c: char) -> Seq<char>
    decreases s.len(),
{
    if s.len() > 0 && s[0] == c {
        strip_lead(s.drop_first(), c)
    } else {
        s
    }
}

fn strip_lead_index(s: &[char], c: char) -> (r: usize)
    ensures
        r <= s@.len(),
        s@.skip(r as int) == strip_lead(s@, c),
{
    let mut i: usize = 0;
    assert(s@.skip(0) =~= s@);
    while i < s.len() && s[i] == c
        invariant
            i <= s@.len(),
            strip_lead(s@, c) == strip_lead(s@.skip(i as int), c),
        decreases s.len() - i,
    {
        assert(s@.skip(i as int).drop_first() =~= s@.skip(i + 1));
        i += 1;
    }
    i
}

/// The text of a heading line: after the leading `#`s and the spaces.
pub open spec fn heading_spec(line: Seq<char>) -> Option<Seq<char>> {
    let t = trim_start_spec(line);
    if t.len() > 0 && t[0] == '#' {
        Some(trim_start_spec(strip_lead(t, '#')))
    } else {
        None
    }
}

fn heading_of(line: &[char]) -> (r: Option<Vec<char>>)
    ensures
        match heading_spec(line@) {
            Some(h) => r matches Some(x) && x@ == h,
            None => r is None,
        },
{
    let a = crate::text::trim_start_index(line);
    let t = slice_chars(line, a, line.len());
    assert(t@ =~= line@.skip(a as int));
    if t.len() > 0 && t[0] == '#' {
        let b = strip_lead_index(&t, '#');
        let rest = slice_chars(&t, b, t.len());
        assert(rest@ =~= t@.skip(b as int));
        let c = crate::text::trim_start_index(&rest);
        let h = slice_chars(&rest, c, rest.len());
        assert(h@ =~= rest@.skip(c as int));
        Some(h)
    } else {
        None
    }
}

/// A list item: whether it is indented, and its text after the marker
/// (`- `, `* `, `• `, `> `, `+ `, or a digit and a dot).
pub open spec fn list_spec(line: Seq<char>) -> Option<(bool, Seq<char>)> {
    let t = trim_start_spec(line);
    let ind = t.len() != line.len();
    if starts_with(t, "- "@) || starts_with(t, "* "@) || starts_with(t, "• "@) || starts_with(t, "> "@)
        || starts_with(t, "+ "@) {
        Some((ind, t.skip(2)))
    } else if t.len() >= 2 && is_digit(t[0]) && t[1] == '.' {
        Some((ind, trim_start_spec(t.skip(2))))
    } else {
        None
    }
}

fn list_marker(line: &[char]) -> (r: Option<(bool, Vec<char>)>)
    ensures
        match list_spec(line@) {
            Some((ind, rest)) => r matches Some(x) && x.0 == ind && x.1@ == rest,
            None => r is None,
        },
{
    let a = crate::text::trim_start_index(line);
    let t = slice_chars(line, a, line.len());
    assert(t@ =~= line@.skip(a as int));
    let ind = a > 0;
    proof {
        reveal_strlit("- ");
        reveal_strlit("* ");
        reveal_strlit("• ");
        reveal_strlit("> ");
        reveal_strlit("+ ");
    }
    if starts_with_chars(&t, &chars_of("- ")) || starts_with_chars(&t, &chars_of("* "))
        || starts_with_chars(&t, &chars_of("• ")) || starts_with_chars(&t, &chars_of("> "))
        || starts_with_chars(&t, &chars_of("+ ")) {
        let rest = slice_chars(&t, 2, t.len());
        assert(rest@ =~= t@.skip(2));
        return Some((ind, rest));
    }
    if t.len() >= 2 && '0' <= t[0] && t[0] <= '9' && t[1] == '.' {
        let rest = slice_chars(&t, 2, t.len());
        assert(rest@ =~= t@.skip(2));
        let c = crate::text::trim_start_index(&rest);
        let r = slice_chars(&rest, c, rest.len());
        assert(r@ =~= rest@.skip(c as int));
        return Some((ind, r));
    }
    None
}

/// Spans of the pieces between `**`: odd pieces bold, empty ones dropped.
pub open spec fn bold_parts(parts: Seq<Seq<char>>) -> Seq<SpanV>
    decreases parts.len(),
{
    if parts.len() == 0 {
        seq![]
    } else {
        let prev = bold_parts(parts.drop_last());
        let p = parts.last();
        if p.len() == 0 {
            prev
        } else if (parts.len() - 1) % 2 == 1 {
            prev.push((p, SpanStyle::Bold))
        } else {
            prev.push((p, SpanStyle::Plain))
        }
    }
}

/// Spans of the pieces between backticks: odd pieces code, the others
/// split for bold, empty ones dropped.
pub open spec fn inline_parts(parts: Seq<Seq<char>>) -> Seq<SpanV>
    decreases parts.len(),
{
    if parts.len() == 0 {
        seq![]
    } else {
        let prev = inline_parts(parts.drop_last());
        let p = parts.last();
        if p.len() == 0 {
            prev
        } else if (parts.len() - 1) % 2 == 1 {
            prev.push((p, SpanStyle::Code))
        } else {
            prev + bold_parts(split_str(p, "**"@))
        }
    }
}

/// A line split into spans: `code`, **bold**, and plain text; the whole line
/// as one plain span when no span is left.
pub open spec fn inline_spec(text: Seq<char>) -> Seq<SpanV> {
    let s = inline_parts(split_on(text, '`'));
    if s.len() == 0 {
        seq![(text, SpanStyle::Plain)]
    } else {
        s
    }
}

fn push_span(out: &mut Vec<Span>, text: &Vec<char>, style: SpanStyle)
    ensures
        spans_view(final(out)@) == spans_view(old(out)@).push((text@, style)),
{
    out.push(Span { content: string_of(text), style });
    assert(spans_view(final(out)@) =~= spans_view(old(out)@).push((text@, style)));
}

fn bold(out: &mut Vec<Span>, text: &Vec<char>)
    ensures
        spans_view(final(out)@) == spans_view(old(out)@) + bold_parts(split_str(text@, "**"@)),
{
    let sep = chars_of("**");
    proof {
        reveal_strlit("**");
    }
    let parts = split_str_of(text, &sep);
    let ghost pv = view2(parts@);
    let ghost base = spans_view(out@);
    for i in 0..parts.len()
        invariant
            pv == view2(parts@),
            pv == split_str(text@, "**"@),
            spans_view(out@) == base + bold_parts(pv.take(i as int)),
    {
        assert(pv.take(i + 1).drop_last() =~= pv.take(i as int));
        let p = &parts[i];
        if p.len() == 0 {
        } else if i % 2 == 1 {
            push_span(out, p, SpanStyle::Bold);
            assert(base + bold_parts(pv.take(i + 1)) =~= base + bold_parts(pv.take(i as int)).push((p@, SpanStyle::Bold)));
        } else {
            push_span(out, p, SpanStyle::Plain);
            assert(base + bold_parts(pv.take(i + 1)) =~= base + bold_parts(pv.take(i as int)).push((p@, SpanStyle::Plain)));
        }
    }
    assert(pv.take(parts@.len() as int) =~= pv);
}

fn inline(text: &Vec<char>) -> (r: Vec<Span>)
    ensures
        spans_view(r@) == inline_spec(text@),
{
    let mut spans: Vec<Span> = Vec::new();
    let parts = split_chars(text, '`');
    let ghost pv = view2(parts@);
    assert(spans_view(spans@) =~= Seq::<SpanV>::empty());
    for i in 0..parts.len()
        invariant
            pv == view2(parts@),
            pv == split_on(text@, '`'),
            spans_view(spans@) == inline_parts(pv.take(i as int)),
    {
        assert(pv.take(i + 1).drop_last() =~= pv.take(i as int));
        let p = &parts[i];
        if p.len() == 0 {
        } else if i % 2 == 1 {
            push_span(&mut spans, p, SpanStyle::Code);
        } else {
            bold(&mut spans, p);
        }
    }
    assert(pv.take(parts@.len() as int) =~= pv);
    if spans.len() == 0 {
        push_span(&mut spans, text, SpanStyle::Plain);
        assert(spans_view(spans@) =~= seq![(text@, SpanStyle::Plain)]);
    }
    spans
}

/// Whether a line opens or closes a code fence.
pub open spec fn fence_line(line: Seq<char>) -> bool {
    starts_with(trim_start_spec(line), "```"@)
}

/// The prose item of a line outside a fence.
pub open spec fn prose_item(line: Seq<char>) -> MdItemView {
    if trim_spec(line).len() == 0 {
        MdItemView::Prose(seq![])
    } else {
        match heading_spec(line) {
            Some(h) => MdItemView::Prose(seq![(h, SpanStyle::Heading)]),
            None => match list_spec(line) {
                Some((ind, rest)) => MdItemView::Prose(
                    seq![(if ind { "    "@ } else { ""@ }, SpanStyle::Plain)] + inline_spec(rest),
                ),
                None => MdItemView::Prose(inline_spec(line)),
            },
        }
    }
}

/// The language named after an opening fence, if any.
pub open spec fn fence_lang(line: Seq<char>) -> Option<Seq<char>> {
    let l = trim_spec(strip_lead(line, '`'));
    if l.len() > 0 {
        Some(l)
    } else {
        None
    }
}

/// Items of the first lines, whether a fence is open, its language, and the
/// lines gathered in it.
pub open spec fn md_state(lines: Seq<Seq<char>>) -> (Seq<MdItemView>, bool, Option<Seq<char>>, Seq<Seq<char>>)
    decreases lines.len(),
{
    if lines.len() == 0 {
        (seq![], false, None, seq![])
    } else {
        let (items, in_fence, lang, fl) = md_state(lines.drop_last());
        let line = trim_end_spec(lines.last());
        if in_fence {
            if fence_line(line) {
                (items.push(MdItemView::Code(lang, fl)), false, None, seq![])
            } else {
                (items, true, lang, fl.push(line))
            }
        } else if fence_line(line) {
            (items, true, fence_lang(line), fl)
        } else {
            (items.push(prose_item(line)), false, lang, fl)
        }
    }
}

/// The items of a text; a fence still open at the end becomes a code block.
pub open spec fn render_spec(text: Seq<char>) -> Seq<MdItemView> {
    let (items, in_fence, lang, fl) = md_state(split_on(text, '\n'));
    if in_fence {
        items.push(MdItemView::Code(lang, fl))
    } else {
        items
    }
}

fn prose_of(line: &Vec<char>) -> (r: MdItem)
    ensures
        item_view(r) == prose_item(line@),
{
    let t = trim_chars(line);
    if t.len() == 0 {
        let v: Vec<Span> = Vec::new();
        assert(spans_view(v@) =~= Seq::<SpanV>::empty());
        return MdItem::Prose(v);
    }
    match heading_of(line) {
        Some(h) => {
            let mut v: Vec<Span> = Vec::new();
            push_span(&mut v, &h, SpanStyle::Heading);
            assert(spans_view(v@) =~= seq![(h@, SpanStyle::Heading)]);
            MdItem::Prose(v)
        },
        None => match list_marker(line) {
            Some((ind, rest)) => {
                let mut v: Vec<Span> = Vec::new();
                let pad = if ind {
                    chars_of("    ")
                } else {
                    chars_of("")
                };
                push_span(&mut v, &pad, SpanStyle::Plain);
                let more = inline(&rest);
                let ghost head = spans_view(v@);
                let mut j: usize = 0;
                while j < more.len()
                    invariant
                        j <= more@.len(),
                        spans_view(v@) == head + spans_view(more@).take(j as int),
                    decreases more.len() - j,
                {
                    let s = &more[j];
                    push_span(&mut v, &chars_of(s.content.as_str()), s.style);
                    assert(spans_view(more@).take(j + 1) =~= spans_view(more@).take(j as int).push(
                        (s.content@, s.style),
                    ));
                    j += 1;
                }
                assert(spans_view(more@).take(j as int) =~= spans_view(more@));
                assert(spans_view(v@) =~= seq![(if ind { "    "@ } else { ""@ }, SpanStyle::Plain)]
                    + inline_spec(rest@));
                MdItem::Prose(v)
            },
            None => MdItem::Prose(inline(line)),
        },
    }
}

fn strings_of(v: &Vec<Vec<char>>) -> (r: Vec<String>)
    ensures
        crate::goal::strs(r@) == view2(v@),
{
    let mut out: Vec<String> = Vec::new();
    for k in 0..v.len()
        invariant
            crate::goal::strs(out@) =~= view2(v@).take(k as int),
    {
        let ghost prev = crate::goal::strs(out@);
        out.push(string_of(&v[k]));
        assert(crate::goal::strs(out@) =~= prev.push(view2(v@)[k as int]));
    }
    assert(view2(v@).take(v@.len() as int) =~= view2(v@));
    out
}

/// Render markdown-ish text into styled items. Supports paragraphs, headings,
/// lists, inline code, code fences, and bold. Unclosed code fences render the
/// remainder as a code block (streaming-friendly).
pub fn render(text: &str) -> (r: Vec<MdItem>)
    ensures
        items_view(r@) == render_spec(text@),
{
    let lines = split_chars(&chars_of(text), '\n');
    let ghost lv = view2(lines@);
    let fence = chars_of("```");
    let mut out: Vec<MdItem> = Vec::new();
    let mut in_fence = false;
    let mut lang: Option<Vec<char>> = None;
    let mut fence_lines: Vec<Vec<char>> = Vec::new();
    for k in 0..lines.len()
        invariant
            lv == view2(lines@),
            lv == split_on(text@, '\n'),
            fence@ == "```"@,
            md_state(lv.take(k as int)) == (
                items_view(out@),
                in_fence,
                match lang {
                    Some(l) => Some(l@),
                    None => None::<Seq<char>>,
                },
                view2(fence_lines@),
            ),
    {
        assert(lv.take(k + 1).drop_last() =~= lv.take(k as int));
        let raw = &lines[k];
        let e = crate::text::trim_end_index(raw);
        let line = slice_chars(raw, 0, e);
        assert(line@ == trim_end_spec(lv.take(k + 1).last()));
        let a = crate::text::trim_start_index(&line);
        let ts = slice_chars(&line, a, line.len());
        assert(ts@ =~= line@.skip(a as int));
        let is_fence = starts_with_chars(&ts, &fence);
        let ghost prev = items_view(out@);
        if in_fence {
            if is_fence {
                in_fence = false;
                let l = match lang {
                    Some(l) => Some(string_of(&l)),
                    None => None,
                };
                let ls = strings_of(&fence_lines);
                out.push(MdItem::Code { lang: l, lines: ls });
                assert(items_view(out@) =~= prev.push(item_view(out@.last())));
                lang = None;
                fence_lines = Vec::new();
                assert(view2(fence_lines@) =~= Seq::<Seq<char>>::empty());
            } else {
                let ghost fprev = view2(fence_lines@);
                fence_lines.push(line);
                assert(view2(fence_lines@) =~= fprev.push(trim_end_spec(lv.take(k + 1).last())));
            }
        } else if is_fence {
            in_fence = true;
            let b = strip_lead_index(&line, '`');
            let rest = slice_chars(&line, b, line.len());
            assert(rest@ =~= line@.skip(b as int));
            let l = trim_chars(&rest);
            if l.len() > 0 {
                lang = Some(l);
            } else {
                lang = None;
            }
        } else {
            let item = prose_of(&line);
            out.push(item);
            assert(items_view(out@) =~= prev.push(prose_item(line@)));
        }
    }
    assert(lv.take(lines@.len() as int) =~= lv);
    if in_fence {
        let ghost prev = items_view(out@);
        let l = match lang {
            Some(l) => Some(string_of(&l)),
            None => None,
        };
        let ls = strings_of(&fence_lines);
        out.push(MdItem::Code { lang: l, lines: ls });
        assert(items_view(out@) =~= prev.push(item_view(out@.last())));
    }
    out
}

} // verus!
