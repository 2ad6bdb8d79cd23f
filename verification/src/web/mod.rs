//! The web tools' text handling: entity and percent decoding, query
//! encoding, and recognising HTML.
use vstd::prelude::*;

use crate::text::{
    chars_of, contains, find_first, find_spec, push_str_chars, slice_chars, split_str,
    split_str_of, starts_with, string_of, view2,
};

verus! {

/// One web search hit.
#[derive(Debug, Clone)]
pub struct SearchResult {
    pub title: String,
    pub url: String,
    pub snippet: String,
}

/// `parts` joined with `sep` between consecutive parts.
pub open spec fn join_seqs(parts: Seq<Seq<char>>, sep: Seq<char>) -> Seq<char>
    decreases parts.len(),
{
    if parts.len() == 0 {
        seq![]
    } else if parts.len() == 1 {
        parts[0]
    } else {
        join_seqs(parts.drop_last(), sep) + sep + parts.last()
    }
}

/// `s` with each non-overlapping occurrence of `pat`, left to right,
/// replaced by `rep` (as `str::replace`).
pub open spec fn replace_spec(s: Seq<char>, pat: Seq<char>, rep: Seq<char>) -> Seq<char> {
    join_seqs(split_str(s, pat), rep)
}

/// `str::replace` with a non-empty pattern, over characters.
pub fn replace_chars(s: &[char], pat: &str, rep: &str) -> (r: Vec<char>)
    requires
        pat@.len() > 0,
    ensures
        r@ == replace_spec(s@, pat@, rep@),
{
    let pv = chars_of(pat);
    let parts = split_str_of(s, &pv);
    let ghost ps = view2(parts@);
    let mut out: Vec<char> = Vec::new();
    let mut k: usize = 0;
    while k < parts.len()
        invariant
            k <= parts@.len(),
            ps == view2(parts@),
            out@ == join_seqs(ps.take(k as int), rep@),
        decreases parts@.len() - k,
    {
        assert(ps.take(k + 1).drop_last() =~= ps.take(k as int));
        if k > 0 {
            push_str_chars(&mut out, rep);
        }
        crate::text::extend_chars(&mut out, &parts[k]);
        proof {
            if k == 0 {
                assert(out@ =~= ps.take(1)[0]);
            } else {
                assert(out@ =~= join_seqs(ps.take(k as int), rep@) + rep@ + ps.take(k + 1).last());
            }
        }
        k += 1;
    }
    assert(ps.take(k as int) =~= ps);
    out
}

/// HTML entity decoding as the web tools do it: `&amp;` first, then
/// `&lt;`, `&gt;`, `&quot;`, `&#39;`, `&apos;` and `&nbsp;`, each replaced
/// throughout the text in turn.
pub open spec fn decode_entities_spec(s: Seq<char>) -> Seq<char> {
    let a = replace_spec(s, "&amp;"@, "&"@);
    let b = replace_spec(a, "&lt;"@, "<"@);
    let c = replace_spec(b, "&gt;"@, ">"@);
    let d = replace_spec(c, "&quot;"@, "\""@);
    let e = replace_spec(d, "&#39;"@, "'"@);
    let f = replace_spec(e, "&apos;"@, "'"@);
    replace_spec(f, "&nbsp;"@, " "@)
}

proof fn lemma_nonempty_literals()
    ensures
        "&amp;"@.len() > 0,
        "&lt;"@.len() > 0,
        "&gt;"@.len() > 0,
        "&quot;"@.len() > 0,
        "&#39;"@.len() > 0,
        "&apos;"@.len() > 0,
        "&nbsp;"@.len() > 0,
{
    reveal_strlit("&amp;");
    reveal_strlit("&lt;");
    reveal_strlit("&gt;");
    reveal_strlit("&quot;");
    reveal_strlit("&#39;");
    reveal_strlit("&apos;");
    reveal_strlit("&nbsp;");
}

pub fn decode_entities(s: &str) -> (r: String)
    ensures
        r@ == decode_entities_spec(s@),
{
    proof {
        lemma_nonempty_literals();
    }
    let v = chars_of(s);
    let a = replace_chars(&v, "&amp;", "&");
    let b = replace_chars(&a, "&lt;", "<");
    let c = replace_chars(&b, "&gt;", ">");
    let d = replace_chars(&c, "&quot;", "\"");
    let e = replace_chars(&d, "&#39;", "'");
    let f = replace_chars(&e, "&apos;", "'");
    let g = replace_chars(&f, "&nbsp;", " ");
    string_of(&g)
}

/// Value of an ASCII hex digit.
pub open spec fn hex_val(b: u8) -> Option<u8> {
    if 0x30 <= b <= 0x39 {
        Some((b - 0x30) as u8)
    } else if 0x41 <= b <= 0x46 {
        Some((b - 0x41 + 10) as u8)
    } else if 0x61 <= b <= 0x66 {
        Some((b - 0x61 + 10) as u8)
    } else {
        None
    }
}

/// The byte two characters after a `%` stand for (as
/// `u8::from_str_radix(.., 16)` reads them: two hex digits, or `+` and one).
pub open spec fn pct_pair(b1: u8, b2: u8) -> Option<u8> {
    match (hex_val(b1), hex_val(b2)) {
        (Some(h), Some(l)) => Some((h * 16 + l) as u8),
        (None, Some(l)) => if b1 == 0x2b {
            Some(l)
        } else {
            None
        },
        _ => None,
    }
}

/// Percent-decoding of bytes from `i` on: `%` and a valid pair becomes
/// that byte; every other byte stays.
pub open spec fn pct_decode(bs: Seq<u8>, i: int) -> Seq<u8>
    decreases bs.len() - i,
{
    if i < 0 || i >= bs.len() {
        seq![]
    } else if bs[i] == 0x25 && i + 2 < bs.len() && pct_pair(bs[i + 1], bs[i + 2]) is Some {
        seq![pct_pair(bs[i + 1], bs[i + 2])->0] + pct_decode(bs, i + 3)
    } else {
        seq![bs[i]] + pct_decode(bs, i + 1)
    }
}

/// Bytes read as UTF-8 with each invalid sequence replaced by U+FFFD, as
/// `String::from_utf8_lossy` does.
pub uninterp spec fn utf8_lossy(bytes: Seq<u8>) -> Seq<char>;

/// Calls `String::from_utf8_lossy`.
/// Claimed: the result is `utf8_lossy(bytes)`, and valid UTF-8 decodes to
/// the characters it encodes; how invalid sequences are replaced is not
/// stated beyond the name.
#[verifier::external_body]
fn lossy_string(bytes: &[u8]) -> (r: String)
    ensures
        r@ == utf8_lossy(bytes@),
        vstd::utf8::valid_utf8(bytes@) ==> r@ == vstd::utf8::decode_utf8(bytes@),
{
    String::from_utf8_lossy(bytes).into_owned()
}

fn hex_value(b: u8) -> (r: Option<u8>)
    ensures
        r == hex_val(b),
{
    if 0x30 <= b && b <= 0x39 {
        Some(b - 0x30)
    } else if 0x41 <= b && b <= 0x46 {
        Some(b - 0x41 + 10)
    } else if 0x61 <= b && b <= 0x66 {
        Some(b - 0x61 + 10)
    } else {
        None
    }
}

fn pair_value(b1: u8, b2: u8) -> (r: Option<u8>)
    ensures
        r == pct_pair(b1, b2),
{
    match (hex_value(b1), hex_value(b2)) {
        (Some(h), Some(l)) => Some(h * 16 + l),
        (None, Some(l)) => if b1 == 0x2b {
            Some(l)
        } else {
            None
        },
        _ => None,
    }
}

/// Every `%` with two bytes after it is followed by two bytes that end on
/// a character boundary, so that the two bytes can be read as text.
pub open spec fn pct_safe(s: Seq<char>) -> bool {
    let bs = vstd::utf8::encode_utf8(s);
    forall|i: int|
        0 <= i && i + 2 < bs.len() && bs[i] == 0x25 ==> vstd::utf8::is_char_boundary(
            bs,
            #[trigger] (i + 3),
        )
}

/// Whether `s` meets `pct_safe`, tested byte by byte.
pub fn is_pct_safe(s: &str) -> (r: bool)
    ensures
        r == pct_safe(s@),
{
    let bytes = s.as_bytes();
    let ghost bs = vstd::utf8::encode_utf8(s@);
    proof {
        vstd::utf8::encode_utf8_valid_utf8(s@);
    }
    let n = bytes.len();
    let mut i: usize = 0;
    while i < n
        invariant
            bytes@ == bs,
            bs == vstd::utf8::encode_utf8(s@),
            n == bs.len(),
            i <= n,
            vstd::utf8::valid_utf8(bs),
            forall|k: int|
                0 <= k < i && k + 2 < bs.len() && bs[k] == 0x25 ==> vstd::utf8::is_char_boundary(
                    bs,
                    #[trigger] (k + 3),
                ),
        decreases n - i,
    {
        if bytes[i] == 0x25 && n - i > 2 {
            if n - i == 3 {
                proof {
                    vstd::utf8::is_char_boundary_start_end_of_seq(bs);
                    assert(i + 3 == bs.len());
                }
            } else {
                let b = bytes[i + 3];
                proof {
                    vstd::utf8::is_char_boundary_iff_not_is_continuation_byte(bs, i + 3);
                }
                if 0x80 <= b && b <= 0xbf {
                    return false;
                }
            }
        }
        i += 1;
    }
    true
}

/// Percent-decode `s` (`%XX` escapes), reading the result as lossy UTF-8.
pub fn percent_decode(s: &str) -> (r: String)
    requires
        pct_safe(s@),
    ensures
        r@ == utf8_lossy(pct_decode(vstd::utf8::encode_utf8(s@), 0)),
{
    let bytes = s.as_bytes();
    let ghost bs = bytes@;
    let mut out: Vec<u8> = Vec::new();
    let mut i: usize = 0;
    let n = bytes.len();
    while i < n
        invariant
            n == bs.len(),
            bs == bytes@,
            i <= n,
            out@ + pct_decode(bs, i as int) == pct_decode(bs, 0),
        decreases n - i,
    {
        if bytes[i] == 0x25 && n - i > 2 {
            match pair_value(bytes[i + 1], bytes[i + 2]) {
                Some(v) => {
                    let ghost prev = out@;
                    out.push(v);
                    assert(prev + pct_decode(bs, i as int) =~= out@ + pct_decode(bs, i + 3));
                    i += 3;
                },
                None => {
                    let ghost prev = out@;
                    out.push(bytes[i]);
                    assert(prev + pct_decode(bs, i as int) =~= out@ + pct_decode(bs, i + 1));
                    i += 1;
                },
            }
        } else {
            let ghost prev = out@;
            out.push(bytes[i]);
            assert(prev + pct_decode(bs, i as int) =~= out@ + pct_decode(bs, i + 1));
            i += 1;
        }
    }
    assert(out@ =~= pct_decode(bs, 0));
    lossy_string(&out)
}

/// Unreserved URL bytes: ASCII letters, digits, `-`, `_`, `.` and `~`.
pub open spec fn unreserved(b: u8) -> bool {
    (0x41 <= b <= 0x5a) || (0x61 <= b <= 0x7a) || (0x30 <= b <= 0x39) || b == 0x2d || b == 0x5f
        || b == 0x2e || b == 0x7e
}

/// Uppercase hex digit for `d < 16`.
pub open spec fn hex_digit(d: u8) -> char {
    if d < 10 {
        ((0x30 + d) as u8) as char
    } else {
        ((0x41 + d - 10) as u8) as char
    }
}

/// How one byte of a query is written in a URL.
pub open spec fn url_byte(b: u8) -> Seq<char> {
    if unreserved(b) {
        seq![b as char]
    } else if b == 0x20 {
        seq!['+']
    } else {
        seq!['%', hex_digit(b / 16), hex_digit(b % 16)]
    }
}

pub open spec fn url_bytes(bs: Seq<u8>) -> Seq<char>
    decreases bs.len(),
{
    if bs.len() == 0 {
        seq![]
    } else {
        url_bytes(bs.drop_last()) + url_byte(bs.last())
    }
}

fn hex_char(d: u8) -> (c: char)
    requires
        d < 16,
    ensures
        c == hex_digit(d),
{
    if d < 10 {
        (0x30 + d) as char
    } else {
        (0x41 + d - 10) as char
    }
}

/// Form-encode a query: unreserved bytes stay, spaces become `+`, every
/// other byte becomes `%XX`.
pub fn urlencode(s: &str) -> (r: String)
    ensures
        r@ == url_bytes(vstd::utf8::encode_utf8(s@)),
{
    let bytes = s.as_bytes();
    let ghost bs = bytes@;
    let mut out: Vec<char> = Vec::new();
    for k in 0..bytes.len()
        invariant
            bs == bytes@,
            out@ == url_bytes(bs.take(k as int)),
    {
        let b = bytes[k];
        assert(bs.take(k + 1).drop_last() =~= bs.take(k as int));
        if (0x41 <= b && b <= 0x5a) || (0x61 <= b && b <= 0x7a) || (0x30 <= b && b <= 0x39) || b
            == 0x2d || b == 0x5f || b == 0x2e || b == 0x7e {
            out.push(b as char);
        } else if b == 0x20 {
            out.push('+');
        } else {
            out.push('%');
            out.push(hex_char(b / 16));
            out.push(hex_char(b % 16));
        }
        assert(out@ =~= url_bytes(bs.take(k + 1)));
    }
    assert(bs.take(bs.len() as int) =~= bs);
    string_of(&out)
}

/// The part of a DuckDuckGo result link that holds the target: the value of
/// its `uddg=` parameter, or the whole link.
pub open spec fn ddg_part(href: Seq<char>) -> Seq<char> {
    match find_spec(href, "uddg="@, 0) {
        Some(p) => {
            let rest = href.skip(p + "uddg="@.len());
            match find_spec(rest, seq!['&'], 0) {
                Some(e) => rest.take(e),
                None => rest,
            }
        },
        None => href,
    }
}

/// DuckDuckGo redirect URLs look like `//duckduckgo.com/l/?uddg=<encoded>&rut=...`.
pub fn decode_ddg_href(href: &str) -> (r: String)
    requires
        pct_safe(ddg_part(href@)),
    ensures
        r@ == utf8_lossy(pct_decode(vstd::utf8::encode_utf8(ddg_part(href@)), 0)),
{
    let part = ddg_part_of(href);
    percent_decode(part.as_str())
}

/// The part of a result link that holds the target.
fn ddg_part_of(href: &str) -> (r: String)
    ensures
        r@ == ddg_part(href@),
{
    let hv = chars_of(href);
    let key = chars_of("uddg=");
    proof {
        crate::text::lemma_find_spec(href@, "uddg="@, 0);
    }
    let len = hv.len();
    let part = match find_first(&hv, &key, 0) {
        Some(p) => {
            let rest = slice_chars(&hv, p + key.len(), len);
            assert(rest@ =~= href@.skip(p + "uddg="@.len()));
            let amp: Vec<char> = vec!['&'];
            assert(amp@ =~= seq!['&']);
            proof {
                crate::text::lemma_find_spec(rest@, amp@, 0);
            }
            let rlen = rest.len();
            match find_first(&rest, &amp, 0) {
                Some(e) => {
                    let t = slice_chars(&rest, 0, e);
                    assert(t@ =~= rest@.take(e as int));
                    t
                },
                None => slice_chars(&rest, 0, rlen),
            }
        },
        None => slice_chars(&hv, 0, len),
    };
    assert(part@ =~= ddg_part(href@));
    string_of(&part)
}

/// ASCII letters lowercased; every other character unchanged.
pub open spec fn ascii_lower(s: Seq<char>) -> Seq<char> {
    Seq::new(
        s.len(),
        |k: int| if 'A' <= s[k] <= 'Z' {
            ((s[k] as u32) + 32) as char
        } else {
            s[k]
        },
    )
}

/// Text that starts (after leading whitespace) with a doctype, or holds an
/// `<html`, `<body` or `<head` tag, ignoring ASCII case.
pub open spec fn html_like(text: Seq<char>) -> bool {
    let lower = ascii_lower(crate::text::trim_start_spec(text));
    starts_with(lower, "<!doctype html"@) || contains(lower, "<html"@) || contains(lower, "<body"@)
        || contains(lower, "<head"@)
}

pub fn looks_like_html(text: &str) -> (r: bool)
    ensures
        r == html_like(text@),
{
    let v = chars_of(text);
    let start = crate::text::trim_start_index(&v);
    let mut lower: Vec<char> = Vec::new();
    let ghost t = v@.skip(start as int);
    for k in start..v.len()
        invariant
            start <= v@.len(),
            t == v@.skip(start as int),
            lower@ =~= ascii_lower(t).take(k - start),
    {
        let c = v[k];
        let l = if 'A' <= c && c <= 'Z' {
            ((c as u32) + 32) as u8 as char
        } else {
            c
        };
        lower.push(l);
    }
    assert(ascii_lower(t).take(v@.len() - start) =~= ascii_lower(t));
    crate::text::starts_with_chars(&lower, &chars_of("<!doctype html")) || crate::text::contains_str(
        &lower,
        "<html",
    ) || crate::text::contains_str(&lower, "<body") || crate::text::contains_str(&lower, "<head")
}

/// What `Regex::new(pattern)` and then `replace_all(text, rep)` give: the
/// text with every leftmost-first match replaced; none when the pattern
/// does not compile.
pub uninterp spec fn regex_replaced(pattern: Seq<char>, text: Seq<char>, rep: Seq<char>) -> Option<Seq<char>>;

/// Compiles `pattern` with `regex::Regex::new` and calls `replace_all`.
/// Claimed: the result is `regex_replaced(pattern, text, rep)`, a function
/// of the three texts alone.
#[verifier::external_body]
pub(crate) fn regex_replace_all(pattern: &str, text: &str, rep: &str) -> (r: Option<String>)
    ensures
        match r {
            Some(t) => regex_replaced(pattern@, text@, rep@) == Some(t@),
            None => regex_replaced(pattern@, text@, rep@) is None,
        },
{
    match regex::Regex::new(pattern) {
        Ok(re) => Some(re.replace_all(text, rep).into_owned()),
        Err(_) => None,
    }
}

/// `s` with the matches of `pattern` replaced by a space (unchanged when
/// the pattern does not compile; the patterns used here all do).
pub open spec fn blank_out(s: Seq<char>, pattern: Seq<char>) -> Seq<char> {
    match regex_replaced(pattern, s, " "@) {
        Some(t) => t,
        None => s,
    }
}

fn blank_out_of(s: String, pattern: &str) -> (r: String)
    ensures
        r@ == blank_out(s@, pattern@),
{
    match regex_replace_all(pattern, s.as_str(), " ") {
        Some(t) => t,
        None => s,
    }
}

/// The trimmed lines that are not blank.
pub open spec fn text_lines(ls: Seq<Seq<char>>) -> Seq<Seq<char>>
    decreases ls.len(),
{
    if ls.len() == 0 {
        seq![]
    } else {
        let prev = text_lines(ls.drop_last());
        let t = crate::text::trim_spec(ls.last());
        if t.len() > 0 {
            prev.push(t)
        } else {
            prev
        }
    }
}

/// Readable text of an HTML page: scripts, styles, the head and noscript
/// blocks dropped, tags blanked out, entities decoded, runs of spaces and
/// tabs collapsed, and the non-blank lines trimmed.
pub open spec fn html_to_text_spec(html: Seq<char>) -> Seq<char> {
    let s1 = blank_out(html, "(?s)<script.*?</script>"@);
    let s2 = blank_out(s1, "(?s)<style.*?</style>"@);
    let s3 = blank_out(s2, "(?s)<head.*?</head>"@);
    let s4 = blank_out(s3, "(?s)<noscript.*?</noscript>"@);
    let s5 = blank_out(s4, "<[^>]+>"@);
    let s6 = decode_entities_spec(s5);
    let s7 = blank_out(s6, "[ \\t]+"@);
    crate::text::join_with(text_lines(crate::text::str_lines(s7)), '\n')
}

/// Crude but effective HTML to text: drop scripts/styles, strip tags, decode entities.
pub fn html_to_text(html: &str) -> (r: String)
    ensures
        r@ == html_to_text_spec(html@),
{
    let mut s = String::from_str(html);
    s = blank_out_of(s, "(?s)<script.*?</script>");
    s = blank_out_of(s, "(?s)<style.*?</style>");
    s = blank_out_of(s, "(?s)<head.*?</head>");
    s = blank_out_of(s, "(?s)<noscript.*?</noscript>");
    s = blank_out_of(s, "<[^>]+>");
    s = decode_entities(s.as_str());
    s = blank_out_of(s, "[ \\t]+");
    let ls = crate::text::str_lines_of(&chars_of(s.as_str()));
    let ghost lv = view2(ls@);
    let mut kept: Vec<Vec<char>> = Vec::new();
    for k in 0..ls.len()
        invariant
            lv == view2(ls@),
            view2(kept@) == text_lines(lv.take(k as int)),
    {
        assert(lv.take(k + 1).drop_last() =~= lv.take(k as int));
        let t = crate::text::trim_chars(&ls[k]);
        if t.len() > 0 {
            let ghost prev = view2(kept@);
            kept.push(t);
            assert(view2(kept@) =~= prev.push(crate::text::trim_spec(lv[k as int])));
        }
    }
    assert(lv.take(ls@.len() as int) =~= lv);
    string_of(&crate::text::join_chars(&kept, '\n'))
}

/// What `Regex::new(pattern)` and then `captures_iter(text)` give: for each
/// match in order, its groups (group 0 the whole match), each the text it
/// matched or none when it took no part; none when the pattern does not
/// compile.
pub uninterp spec fn regex_captures(pattern: Seq<char>, text: Seq<char>) -> Option<Seq<Seq<Option<Seq<char>>>>>;

/// The groups of one match, as texts.
pub open spec fn groups_view(g: Seq<Option<String>>) -> Seq<Option<Seq<char>>> {
    Seq::new(
        g.len(),
        |j: int|
            match g[j] {
                Some(t) => Some(t@),
                None => None,
            },
    )
}

/// The matches, each as the texts of its groups.
pub open spec fn captures_view(v: Seq<Vec<Option<String>>>) -> Seq<Seq<Option<Seq<char>>>> {
    Seq::new(v.len(), |i: int| groups_view(v[i]@))
}

/// Compiles `pattern` with `regex::Regex::new` and collects `captures_iter`
/// over `text`, each group's matched text copied out. Claimed: the result is
/// `regex_captures(pattern, text)`, a function of the two texts alone.
#[verifier::external_body]
fn captures_all(pattern: &str, text: &str) -> (r: Option<Vec<Vec<Option<String>>>>)
    ensures
        match r {
            Some(v) => regex_captures(pattern@, text@) == Some(captures_view(v@)),
            None => regex_captures(pattern@, text@) is None,
        },
{
    let re = match regex::Regex::new(pattern) {
        Ok(re) => re,
        Err(_) => return None,
    };
    let mut out = Vec::new();
    for caps in re.captures_iter(text) {
        out.push(caps.iter().map(|m| m.map(|m| m.as_str().to_string())).collect());
    }
    Some(out)
}

/// A result's title link: group 1 the link, group 2 the title.
pub open spec fn anchor_pattern() -> Seq<char> {
    "class=\"result__a\"[^>]*href=\"([^\"]+)\"[^>]*>(.*?)</a>"@
}

/// A result's snippet: group 1 its text.
pub open spec fn snippet_pattern() -> Seq<char> {
    "class=\"result__snippet\"[^>]*>(.*?)</a>"@
}

/// The matches of `pattern` in `html` (none if it does not compile).
pub open spec fn matches_in(pattern: Seq<char>, html: Seq<char>) -> Seq<Seq<Option<Seq<char>>>> {
    match regex_captures(pattern, html) {
        Some(c) => c,
        None => seq![],
    }
}

/// The text of group `g` of one match; empty when the group took no part.
pub open spec fn group_text(c: Seq<Option<Seq<char>>>, g: int) -> Seq<char> {
    if 0 <= g < c.len() {
        match c[g] {
            Some(t) => t,
            None => seq![],
        }
    } else {
        seq![]
    }
}

/// Markup text with its tags blanked out, trimmed.
pub open spec fn clean_text(s: Seq<char>) -> Seq<char> {
    crate::text::trim_spec(blank_out(s, "<[^>]+>"@))
}

/// How many results a page gives: one per title link, at most
/// `max_results`, and at least the first link even when `max_results` is 0.
pub open spec fn ddg_count(html: Seq<char>, max_results: usize) -> int {
    let n = matches_in(anchor_pattern(), html).len() as int;
    let limit: int = if max_results == 0 { 1 } else { max_results as int };
    if n < limit { n } else { limit }
}

/// The link of the `i`-th title link, in the form it is decoded from.
pub open spec fn ddg_link(html: Seq<char>, i: int) -> Seq<char> {
    ddg_part(group_text(matches_in(anchor_pattern(), html)[i], 1))
}

/// The `i`-th result of a page.
pub open spec fn ddg_result(html: Seq<char>, i: int) -> (Seq<char>, Seq<char>, Seq<char>) {
    let snippets = matches_in(snippet_pattern(), html);
    (
        clean_text(group_text(matches_in(anchor_pattern(), html)[i], 2)),
        utf8_lossy(pct_decode(vstd::utf8::encode_utf8(ddg_link(html, i)), 0)),
        if i < snippets.len() { clean_text(group_text(snippets[i], 1)) } else { seq![] },
    )
}

/// The text of group `g` of one match.
fn group_of(c: &Vec<Option<String>>, g: usize) -> (r: String)
    ensures
        r@ == group_text(groups_view(c@), g as int),
{
    if g < c.len() {
        match &c[g] {
            Some(t) => t.clone(),
            None => String::new(),
        }
    } else {
        String::new()
    }
}

/// Markup text with its tags blanked out, trimmed.
fn clean_of(s: String) -> (r: String)
    ensures
        r@ == clean_text(s@),
{
    let blanked = blank_out_of(s, "<[^>]+>");
    string_of(&crate::text::trim_chars(&chars_of(blanked.as_str())))
}

/// Parse DuckDuckGo HTML results. Anchors and snippets appear in matching
/// order: the `i`-th snippet belongs to the `i`-th title link.
pub fn parse_ddg(html: &str, max_results: usize) -> (r: Vec<SearchResult>)
    requires
        forall|i: int| 0 <= i < ddg_count(html@, max_results) ==> pct_safe(#[trigger] ddg_link(html@, i)),
    ensures
        r@.len() == ddg_count(html@, max_results),
        forall|i: int|
            0 <= i < r@.len() ==> (#[trigger] r@[i].title@, r@[i].url@, r@[i].snippet@) == ddg_result(html@, i),
{
    let anchor_pat = "class=\"result__a\"[^>]*href=\"([^\"]+)\"[^>]*>(.*?)</a>";
    let snippet_pat = "class=\"result__snippet\"[^>]*>(.*?)</a>";
    let anchors = match captures_all(anchor_pat, html) {
        Some(v) => v,
        None => Vec::new(),
    };
    let snippets = match captures_all(snippet_pat, html) {
        Some(v) => v,
        None => Vec::new(),
    };
    let ghost av = matches_in(anchor_pattern(), html@);
    let ghost sv = matches_in(snippet_pattern(), html@);
    assert(captures_view(anchors@) == av);
    assert(captures_view(snippets@) == sv);
    let limit: usize = if max_results == 0 {
        1
    } else {
        max_results
    };
    let count = if anchors.len() < limit {
        anchors.len()
    } else {
        limit
    };
    let mut out: Vec<SearchResult> = Vec::new();
    for i in 0..count
        invariant
            count == ddg_count(html@, max_results),
            count <= anchors@.len(),
            captures_view(anchors@) == av,
            captures_view(snippets@) == sv,
            av == matches_in(anchor_pattern(), html@),
            sv == matches_in(snippet_pattern(), html@),
            forall|k: int| 0 <= k < ddg_count(html@, max_results) ==> pct_safe(#[trigger] ddg_link(html@, k)),
            out@.len() == i,
            forall|k: int|
                0 <= k < i ==> (#[trigger] out@[k].title@, out@[k].url@, out@[k].snippet@) == ddg_result(html@, k),
    {
        let a = &anchors[i];
        assert(groups_view(a@) == av[i as int]);
        let title = clean_of(group_of(a, 2));
        let href = group_of(a, 1);
        assert(pct_safe(ddg_link(html@, i as int)));
        let url = decode_ddg_href(href.as_str());
        let snippet = if i < snippets.len() {
            assert(groups_view(snippets@[i as int]@) == sv[i as int]);
            clean_of(group_of(&snippets[i], 1))
        } else {
            String::new()
        };
        out.push(SearchResult { title, url, snippet });
    }
    out
}

/// The results of a page, when every link among them can be decoded
/// (`pct_safe`); none otherwise.
pub fn parse_ddg_checked(html: &str, max_results: usize) -> (r: Option<Vec<SearchResult>>)
    ensures
        (forall|i: int| 0 <= i < ddg_count(html@, max_results) ==> pct_safe(#[trigger] ddg_link(html@, i)))
            <==> r is Some,
        r matches Some(v) ==> v@.len() == ddg_count(html@, max_results) && forall|i: int|
            0 <= i < v@.len() ==> (#[trigger] v@[i].title@, v@[i].url@, v@[i].snippet@) == ddg_result(html@, i),
{
    let anchor_pat = "class=\"result__a\"[^>]*href=\"([^\"]+)\"[^>]*>(.*?)</a>";
    let anchors = match captures_all(anchor_pat, html) {
        Some(v) => v,
        None => Vec::new(),
    };
    let ghost av = matches_in(anchor_pattern(), html@);
    assert(captures_view(anchors@) == av);
    let limit: usize = if max_results == 0 {
        1
    } else {
        max_results
    };
    let count = if anchors.len() < limit {
        anchors.len()
    } else {
        limit
    };
    for i in 0..count
        invariant
            count == ddg_count(html@, max_results),
            count <= anchors@.len(),
            captures_view(anchors@) == av,
            av == matches_in(anchor_pattern(), html@),
            forall|k: int| 0 <= k < i ==> pct_safe(#[trigger] ddg_link(html@, k)),
    {
        assert(groups_view(anchors@[i as int]@) == av[i as int]);
        let href = group_of(&anchors[i], 1);
        let part = ddg_part_of(href.as_str());
        if !is_pct_safe(part.as_str()) {
            assert(!pct_safe(ddg_link(html@, i as int)));
            return None;
        }
    }
    Some(parse_ddg(html, max_results))
}

/// How many results a search asks for: the number requested (5 when none
/// is), kept within 1 to 10.
pub fn search_limit(requested: Option<u64>) -> (r: usize)
    ensures
        r == match requested {
            Some(n) => if n < 1 {
                1
            } else if n > 10 {
                10
            } else {
                n
            },
            None => 5,
        },
{
    match requested {
        Some(n) => if n < 1 {
            1
        } else if n > 10 {
            10
        } else {
            n as usize
        },
        None => 5,
    }
}

/// The first `max` results (at least the first one), in order.
pub fn first_results(v: Vec<SearchResult>, max: usize) -> (r: Vec<SearchResult>)
    ensures
        r@ == v@.take(
            if v@.len() < (if max == 0 { 1 } else { max as int }) {
                v@.len() as int
            } else if max == 0 {
                1
            } else {
                max as int
            },
        ),
{
    let limit: usize = if max == 0 {
        1
    } else {
        max
    };
    let mut v = v;
    if v.len() > limit {
        v.truncate(limit);
    }
    v
}

/// One numbered entry of a search report.
pub open spec fn result_entry(i: int, r: SearchResult) -> Seq<char> {
    crate::text::decimal((i + 1) as nat) + ". "@ + r.title@ + "\n   "@ + r.url@ + "\n   "@ + r.snippet@ + "\n"@
}

/// The entries of the first `n` results.
pub open spec fn result_entries(v: Seq<SearchResult>, n: int) -> Seq<char>
    decreases n,
{
    if n <= 0 {
        seq![]
    } else {
        result_entries(v, n - 1) + result_entry(n - 1, v[n - 1])
    }
}

/// What a web search tells the model: each result's title, link and
/// snippet, numbered from 1, or that there were none.
pub open spec fn search_report_spec(query: Seq<char>, v: Seq<SearchResult>) -> Seq<char> {
    if v.len() == 0 {
        "web_search: no results for '"@ + query + "'"@
    } else {
        "Search results for '"@ + query + "':\n"@ + result_entries(v, v.len() as int)
    }
}

/// The report of a web search for `query`.
pub fn search_report(query: &str, results: &Vec<SearchResult>) -> (r: String)
    ensures
        r@ == search_report_spec(query@, results@),
{
    let mut out: Vec<char> = Vec::new();
    if results.len() == 0 {
        push_str_chars(&mut out, "web_search: no results for '");
        push_str_chars(&mut out, query);
        push_str_chars(&mut out, "'");
        return string_of(&out);
    }
    push_str_chars(&mut out, "Search results for '");
    push_str_chars(&mut out, query);
    push_str_chars(&mut out, "':\n");
    let ghost head = out@;
    assert(head + result_entries(results@, 0) =~= head);
    for i in 0..results.len()
        invariant
            out@ == head + result_entries(results@, i as int),
            head == "Search results for '"@ + query@ + "':\n"@,
    {
        let ghost prev = out@;
        let r = &results[i];
        crate::text::push_decimal(&mut out, i + 1);
        push_str_chars(&mut out, ". ");
        push_str_chars(&mut out, r.title.as_str());
        push_str_chars(&mut out, "\n   ");
        push_str_chars(&mut out, r.url.as_str());
        push_str_chars(&mut out, "\n   ");
        push_str_chars(&mut out, r.snippet.as_str());
        push_str_chars(&mut out, "\n");
        assert(out@ =~= prev + result_entry(i as int, results@[i as int]));
        assert(head + result_entries(results@, i + 1) =~= prev + result_entry(i as int, results@[i as int]));
    }
    string_of(&out)
}

} // verus!
