//! Character-level text helpers shared by the rest of the library.
//!
//! Text is handled as sequences of `char`; strings are converted at the edges.
use vstd::prelude::*;

verus! {

/// Number of bytes that the UTF-8 encoding of `c` takes.
pub open spec fn utf8_len(c: char) -> nat {
    if (c as u32) < 0x80 {
        1
    } else if (c as u32) < 0x800 {
        2
    } else if (c as u32) < 0x10000 {
        3
    } else {
        4
    }
}

/// Number of bytes that the UTF-8 encoding of `s` takes.
pub open spec fn byte_len(s: Seq<char>) -> nat
    decreases s.len(),
{
    if s.len() == 0 {
        0
    } else {
        byte_len(s.drop_last()) + utf8_len(s.last())
    }
}

/// The view of a vector of character vectors.
pub open spec fn view2(v: Seq<Vec<char>>) -> Seq<Seq<char>> {
    Seq::new(v.len(), |i: int| v[i]@)
}

/// Unicode `White_Space` property (the set that `char::is_whitespace` tests).
pub open spec fn is_ws(c: char) -> bool {
    let u = c as u32;
    (0x09 <= u && u <= 0x0d) || u == 0x20 || u == 0x85 || u == 0xa0 || u == 0x1680 || (0x2000 <= u
        && u <= 0x200a) || u == 0x2028 || u == 0x2029 || u == 0x202f || u == 0x205f || u == 0x3000
}

/// `parts` joined with `sep` between consecutive parts.
pub open spec fn join_with(parts: Seq<Seq<char>>, sep: char) -> Seq<char>
    decreases parts.len(),
{
    if parts.len() == 0 {
        seq![]
    } else if parts.len() == 1 {
        parts[0]
    } else {
        join_with(parts.drop_last(), sep).push(sep) + parts.last()
    }
}

/// `s` split at every occurrence of `sep` (as `str::split` with a char pattern).
pub open spec fn split_on(s: Seq<char>, sep: char) -> Seq<Seq<char>>
    decreases s.len(),
{
    if s.len() == 0 {
        seq![seq![]]
    } else {
        let prev = split_on(s.drop_last(), sep);
        if s.last() == sep {
            prev.push(seq![])
        } else {
            prev.update(prev.len() - 1, prev.last().push(s.last()))
        }
    }
}

/// `s` with leading and trailing whitespace removed.
pub open spec fn trim_start_spec(s: Seq<char>) -> Seq<char>
    decreases s.len(),
{
    if s.len() > 0 && is_ws(s[0]) {
        trim_start_spec(s.drop_first())
    } else {
        s
    }
}

pub open spec fn trim_end_spec(s: Seq<char>) -> Seq<char>
    decreases s.len(),
{
    if s.len() > 0 && is_ws(s.last()) {
        trim_end_spec(s.drop_last())
    } else {
        s
    }
}

pub open spec fn trim_spec(s: Seq<char>) -> Seq<char> {
    trim_end_spec(trim_start_spec(s))
}

/// True when `p` is a prefix of `s`.
pub open spec fn starts_with(s: Seq<char>, p: Seq<char>) -> bool {
    p.len() <= s.len() && s.take(p.len() as int) == p
}

/// True when `p` is a suffix of `s`.
pub open spec fn ends_with(s: Seq<char>, p: Seq<char>) -> bool {
    p.len() <= s.len() && s.skip(s.len() - p.len()) == p
}

/// True when `p` occurs in `s` at index `i`.
pub open spec fn occurs_at(s: Seq<char>, p: Seq<char>, i: int) -> bool {
    0 <= i && i + p.len() <= s.len() && s.subrange(i, i + p.len()) == p
}

/// True when `p` occurs somewhere in `s`.
pub open spec fn contains(s: Seq<char>, p: Seq<char>) -> bool {
    exists|i: int| occurs_at(s, p, i)
}

pub proof fn lemma_split_on_len(s: Seq<char>, sep: char)
    ensures
        split_on(s, sep).len() >= 1,
    decreases s.len(),
{
    if s.len() > 0 {
        lemma_split_on_len(s.drop_last(), sep);
    }
}

/// Splitting at `sep` and joining with `sep` gives the text back.
pub proof fn lemma_join_split(s: Seq<char>, sep: char)
    ensures
        join_with(split_on(s, sep), sep) == s,
    decreases s.len(),
{
    if s.len() == 0 {
        assert(join_with(split_on(s, sep), sep) =~= s);
    } else {
        let t = s.drop_last();
        let prev = split_on(t, sep);
        lemma_join_split(t, sep);
        lemma_split_on_len(t, sep);
        if s.last() == sep {
            let u = prev.push(seq![]);
            assert(u.drop_last() =~= prev);
            assert(join_with(u, sep) =~= t.push(sep));
            assert(s =~= t.push(sep));
        } else {
            let u = prev.update(prev.len() - 1, prev.last().push(s.last()));
            if prev.len() == 1 {
                assert(join_with(u, sep) == u[0]);
                assert(s =~= t.push(s.last()));
            } else {
                assert(u.drop_last() =~= prev.drop_last());
                assert(join_with(u, sep) == join_with(prev.drop_last(), sep).push(sep) + prev.last().push(
                    s.last(),
                ));
                assert(join_with(prev, sep) == join_with(prev.drop_last(), sep).push(sep)
                    + prev.last());
                assert(join_with(u, sep) =~= join_with(prev, sep).push(s.last()));
                assert(s =~= t.push(s.last()));
            }
        }
    }
}

/// No piece of a split holds the separator.
pub proof fn lemma_split_pieces(s: Seq<char>, sep: char)
    ensures
        forall|k: int, j: int|
            0 <= k < split_on(s, sep).len() && 0 <= j < split_on(s, sep)[k].len() ==> split_on(
                s,
                sep,
            )[k][j] != sep,
    decreases s.len(),
{
    if s.len() > 0 {
        lemma_split_pieces(s.drop_last(), sep);
        lemma_split_on_len(s.drop_last(), sep);
    }
}

pub proof fn lemma_byte_len_concat(a: Seq<char>, b: Seq<char>)
    ensures
        byte_len(a + b) == byte_len(a) + byte_len(b),
    decreases b.len(),
{
    if b.len() == 0 {
        assert(a + b =~= a);
    } else {
        lemma_byte_len_concat(a, b.drop_last());
        assert((a + b).drop_last() =~= a + b.drop_last());
        assert((a + b).last() == b.last());
    }
}

/// The characters of `s`, in order.
pub fn chars_of(s: &str) -> (r: Vec<char>)
    ensures
        r@ == s@,
{
    let mut r: Vec<char> = Vec::new();
    for c in it: s.chars()
        invariant
            r@ == it.seq().take(it.index() as int),
    {
        r.push(c);
    }
    r
}

/// A `String` holding exactly the characters of `v` (`FromIterator<char>`).
#[verifier::external_body]
pub(crate) fn string_of(v: &[char]) -> (r: String)
    ensures
        r@ == v@,
{
    v.iter().collect()
}

/// Append the characters of `s` to `out`.
pub fn push_str_chars(out: &mut Vec<char>, s: &str)
    ensures
        final(out)@ == old(out)@ + s@,
{
    let v = chars_of(s);
    let mut i: usize = 0;
    while i < v.len()
        invariant
            i <= v@.len(),
            v@ == s@,
            out@ == old(out)@ + v@.take(i as int),
        decreases v.len() - i,
    {
        out.push(v[i]);
        i += 1;
        assert(v@.take(i as int) =~= v@.take(i - 1).push(v@[i - 1]));
    }
    assert(v@.take(i as int) =~= v@);
}

/// Append `v` to `out`.
pub fn extend_chars(out: &mut Vec<char>, v: &[char])
    ensures
        final(out)@ == old(out)@ + v@,
{
    let mut i: usize = 0;
    while i < v.len()
        invariant
            i <= v@.len(),
            out@ == old(out)@ + v@.take(i as int),
        decreases v.len() - i,
    {
        out.push(v[i]);
        i += 1;
        assert(v@.take(i as int) =~= v@.take(i - 1).push(v@[i - 1]));
    }
    assert(v@.take(i as int) =~= v@);
}

/// A copy of `v[start..end]`.
pub fn slice_chars(v: &[char], start: usize, end: usize) -> (r: Vec<char>)
    requires
        start <= end <= v@.len(),
    ensures
        r@ == v@.subrange(start as int, end as int),
{
    let mut r: Vec<char> = Vec::new();
    let mut i = start;
    while i < end
        invariant
            start <= i <= end <= v@.len(),
            r@ == v@.subrange(start as int, i as int),
        decreases end - i,
    {
        r.push(v[i]);
        i += 1;
        assert(r@ =~= v@.subrange(start as int, i as int));
    }
    r
}

/// Whether two character slices are equal.
pub fn chars_eq(a: &[char], b: &[char]) -> (r: bool)
    ensures
        r == (a@ == b@),
{
    if a.len() != b.len() {
        return false;
    }
    let mut i: usize = 0;
    while i < a.len()
        invariant
            a@.len() == b@.len(),
            i <= a@.len(),
            forall|j: int| 0 <= j < i ==> a@[j] == b@[j],
        decreases a.len() - i,
    {
        if a[i] != b[i] {
            return false;
        }
        i += 1;
    }
    assert(a@ =~= b@);
    true
}

/// Whether `s` equals the string literal-like `p`.
pub fn eq_str(s: &[char], p: &str) -> (r: bool)
    ensures
        r == (s@ == p@),
{
    let pv = chars_of(p);
    chars_eq(s, &pv)
}

/// Whether `p` is a prefix of `s` at position `at`.
pub fn matches_at(s: &[char], at: usize, p: &[char]) -> (r: bool)
    requires
        at <= s@.len(),
    ensures
        r == occurs_at(s@, p@, at as int),
{
    let n = s.len();
    if p.len() > n - at {
        return false;
    }
    let mut j: usize = 0;
    while j < p.len()
        invariant
            n == s@.len(),
            at + p@.len() <= s@.len(),
            j <= p@.len(),
            forall|k: int| 0 <= k < j ==> s@[at + k] == p@[k],
        decreases p.len() - j,
    {
        if s[at + j] != p[j] {
            assert(s@.subrange(at as int, at + p@.len())[j as int] != p@[j as int]);
            return false;
        }
        j += 1;
    }
    assert(s@.subrange(at as int, at + p@.len()) =~= p@);
    true
}

/// Whether `s` starts with `p`.
pub fn starts_with_chars(s: &[char], p: &[char]) -> (r: bool)
    ensures
        r == starts_with(s@, p@),
{
    let r = matches_at(s, 0, p);
    proof {
        if p@.len() <= s@.len() {
            assert(s@.subrange(0, p@.len() as int) =~= s@.take(p@.len() as int));
        }
    }
    r
}

/// Whether `s` ends with `p`.
pub fn ends_with_chars(s: &[char], p: &[char]) -> (r: bool)
    ensures
        r == ends_with(s@, p@),
{
    if p.len() > s.len() {
        return false;
    }
    let r = matches_at(s, s.len() - p.len(), p);
    proof {
        assert(s@.subrange(s@.len() - p@.len(), s@.len() as int) =~= s@.skip(
            s@.len() - p@.len(),
        ));
    }
    r
}

/// The first index at or after `from` where `p` occurs in `s`, if any.
pub fn find_from(s: &[char], p: &[char], from: usize) -> (r: Option<usize>)
    requires
        from <= s@.len(),
    ensures
        match r {
            Some(i) => from <= i && occurs_at(s@, p@, i as int) && forall|k: int|
                from <= k < i ==> !occurs_at(s@, p@, k),
            None => forall|k: int| from <= k ==> !occurs_at(s@, p@, k),
        },
{
    let mut i = from;
    while i < s.len()
        invariant
            from <= i <= s@.len(),
            forall|k: int| from <= k < i ==> !occurs_at(s@, p@, k),
        decreases s.len() - i,
    {
        if matches_at(s, i, p) {
            return Some(i);
        }
        i += 1;
    }
    if matches_at(s, i, p) {
        return Some(i);
    }
    None
}

/// Whether `p` occurs in `s`.
pub fn contains_chars(s: &[char], p: &[char]) -> (r: bool)
    ensures
        r == contains(s@, p@),
{
    match find_from(s, p, 0) {
        Some(_) => true,
        None => {
            assert(!contains(s@, p@));
            false
        },
    }
}

/// Whether `p` occurs in `s` (string argument).
pub fn contains_str(s: &[char], p: &str) -> (r: bool)
    ensures
        r == contains(s@, p@),
{
    let pv = chars_of(p);
    contains_chars(s, &pv)
}

/// `char::is_whitespace`.
pub fn is_whitespace(c: char) -> (r: bool)
    ensures
        r == is_ws(c),
{
    let u = c as u32;
    (0x09 <= u && u <= 0x0d) || u == 0x20 || u == 0x85 || u == 0xa0 || u == 0x1680 || (0x2000 <= u
        && u <= 0x200a) || u == 0x2028 || u == 0x2029 || u == 0x202f || u == 0x205f || u == 0x3000
}

/// `s` without leading whitespace, as an index into `s`.
pub fn trim_start_index(s: &[char]) -> (r: usize)
    ensures
        r <= s@.len(),
        s@.skip(r as int) == trim_start_spec(s@),
{
    let mut i: usize = 0;
    assert(s@.skip(0) =~= s@);
    while i < s.len() && is_whitespace(s[i])
        invariant
            i <= s@.len(),
            trim_start_spec(s@) == trim_start_spec(s@.skip(i as int)),
        decreases s.len() - i,
    {
        assert(s@.skip(i as int).drop_first() =~= s@.skip(i + 1));
        i += 1;
    }
    proof {
        if i == s@.len() {
            assert(s@.skip(i as int).len() == 0);
        }
    }
    i
}

/// End index of `s` without trailing whitespace.
pub fn trim_end_index(s: &[char]) -> (r: usize)
    ensures
        r <= s@.len(),
        s@.take(r as int) == trim_end_spec(s@),
{
    let mut i: usize = s.len();
    assert(s@.take(i as int) =~= s@);
    while i > 0 && is_whitespace(s[i - 1])
        invariant
            i <= s@.len(),
            trim_end_spec(s@) == trim_end_spec(s@.take(i as int)),
        decreases i,
    {
        assert(s@.take(i as int).drop_last() =~= s@.take(i - 1));
        i -= 1;
    }
    proof {
        if i == s@.len() {
            assert(s@.take(i as int) =~= s@);
        }
    }
    i
}

/// `str::trim` over characters.
pub fn trim_chars(s: &[char]) -> (r: Vec<char>)
    ensures
        r@ == trim_spec(s@),
{
    let a = trim_start_index(s);
    let t = slice_chars(s, a, s.len());
    assert(t@ =~= s@.skip(a as int));
    let b = trim_end_index(&t);
    slice_chars(&t, 0, b)
}

/// Split `s` at every `sep`.
pub fn split_chars(s: &[char], sep: char) -> (r: Vec<Vec<char>>)
    ensures
        view2(r@) == split_on(s@, sep),
{
    let mut out: Vec<Vec<char>> = Vec::new();
    let mut cur: Vec<char> = Vec::new();
    let mut i: usize = 0;
    while i < s.len()
        invariant
            i <= s@.len(),
            view2(out@).push(cur@) == split_on(s@.take(i as int), sep),
        decreases s.len() - i,
    {
        let c = s[i];
        let ghost prev = split_on(s@.take(i as int), sep);
        assert(s@.take(i + 1).drop_last() =~= s@.take(i as int));
        if c == sep {
            out.push(cur);
            cur = Vec::new();
            assert(view2(out@).push(cur@) =~= prev.push(seq![]));
        } else {
            cur.push(c);
            assert(view2(out@).push(cur@) =~= prev.update(prev.len() - 1, prev.last().push(c)));
        }
        i += 1;
    }
    assert(s@.take(i as int) =~= s@);
    out.push(cur);
    assert(view2(out@) =~= split_on(s@, sep));
    out
}

pub proof fn lemma_byte_len_zero(s: Seq<char>)
    ensures
        (byte_len(s) == 0) == (s.len() == 0),
    decreases s.len(),
{
    if s.len() > 0 {
        lemma_byte_len_zero(s.drop_last());
    }
}

pub proof fn lemma_utf8_len_pos(c: char)
    ensures
        1 <= utf8_len(c) <= 4,
{
}

/// Byte length of the UTF-8 encoding of `c` (`char::len_utf8`).
pub fn char_utf8_len(c: char) -> (r: usize)
    ensures
        r == utf8_len(c),
{
    let u = c as u32;
    if u < 0x80 {
        1
    } else if u < 0x800 {
        2
    } else if u < 0x10000 {
        3
    } else {
        4
    }
}

/// Byte length of the UTF-8 encoding of `s`.
pub fn chars_byte_len(s: &[char]) -> (r: usize)
    requires
        byte_len(s@) <= usize::MAX,
    ensures
        r == byte_len(s@),
{
    let mut n: usize = 0;
    let mut i: usize = 0;
    while i < s.len()
        invariant
            i <= s@.len(),
            n == byte_len(s@.take(i as int)),
            byte_len(s@) <= usize::MAX,
        decreases s.len() - i,
    {
        proof {
            assert(s@.take(i + 1).drop_last() =~= s@.take(i as int));
            assert(s@.take(i + 1) + s@.skip(i + 1) =~= s@);
            lemma_byte_len_concat(s@.take(i + 1), s@.skip(i + 1));
        }
        n = n + char_utf8_len(s[i]);
        i += 1;
    }
    assert(s@.take(i as int) =~= s@);
    n
}

/// Decimal digits of `n`.
pub open spec fn decimal(n: nat) -> Seq<char>
    decreases n,
{
    if n < 10 {
        seq![digit_char(n)]
    } else {
        decimal(n / 10).push(digit_char(n % 10))
    }
}

pub open spec fn digit_char(d: nat) -> char {
    if d == 0 {
        '0'
    } else if d == 1 {
        '1'
    } else if d == 2 {
        '2'
    } else if d == 3 {
        '3'
    } else if d == 4 {
        '4'
    } else if d == 5 {
        '5'
    } else if d == 6 {
        '6'
    } else if d == 7 {
        '7'
    } else if d == 8 {
        '8'
    } else {
        '9'
    }
}

fn digit(d: usize) -> (c: char)
    requires
        d < 10,
    ensures
        c == digit_char(d as nat),
{
    if d == 0 {
        '0'
    } else if d == 1 {
        '1'
    } else if d == 2 {
        '2'
    } else if d == 3 {
        '3'
    } else if d == 4 {
        '4'
    } else if d == 5 {
        '5'
    } else if d == 6 {
        '6'
    } else if d == 7 {
        '7'
    } else if d == 8 {
        '8'
    } else {
        '9'
    }
}

/// Append the decimal digits of `n` to `out` (as `format!("{n}")`).
pub fn push_decimal(out: &mut Vec<char>, n: usize)
    ensures
        final(out)@ == old(out)@ + decimal(n as nat),
    decreases n,
{
    if n < 10 {
        out.push(digit(n));
        assert(decimal(n as nat) =~= seq![digit_char(n as nat)]);
    } else {
        push_decimal(out, n / 10);
        out.push(digit(n % 10));
        assert(old(out)@ + decimal(n as nat) =~= old(out)@ + decimal((n / 10) as nat) + seq![
            digit_char((n % 10) as nat),
        ]);
    }
}

/// Append the decimal digits of a `u64` (as `format!("{n}")`).
pub fn push_u64(out: &mut Vec<char>, n: u64)
    ensures
        final(out)@ == old(out)@ + decimal(n as nat),
    decreases n,
{
    if n < 10 {
        out.push(digit(n as usize));
        assert(decimal(n as nat) =~= seq![digit_char(n as nat)]);
    } else {
        push_u64(out, n / 10);
        out.push(digit((n % 10) as usize));
        assert(old(out)@ + decimal(n as nat) =~= old(out)@ + decimal((n / 10) as nat) + seq![
            digit_char((n % 10) as nat),
        ]);
    }
}

/// The lowercase mapping of a text, as computed by `str::to_lowercase`
/// (Unicode `Lowercase_Mapping`, with the final-sigma rule).
pub uninterp spec fn lowercase_of(s: Seq<char>) -> Seq<char>;

/// Calls `str::to_lowercase` on the text of `s`.
/// Claimed: the result is `lowercase_of(s)`; nothing else is stated.
#[verifier::external_body]
pub(crate) fn lowercase(s: &[char]) -> (r: Vec<char>)
    ensures
        r@ == lowercase_of(s@),
{
    let st: String = s.iter().collect();
    st.to_lowercase().chars().collect()
}

/// The uppercase mapping of a text, as computed by `str::to_uppercase`
/// (Unicode `Uppercase_Mapping`, where one character may become several).
pub uninterp spec fn uppercase_of(s: Seq<char>) -> Seq<char>;

/// Calls `str::to_uppercase` on the text of `s`.
/// Claimed: the result is `uppercase_of(s)`; nothing else is stated.
#[verifier::external_body]
pub(crate) fn uppercase(s: &[char]) -> (r: Vec<char>)
    ensures
        r@ == uppercase_of(s@),
{
    let st: String = s.iter().collect();
    st.to_uppercase().chars().collect()
}

proof fn lemma_utf8_scalar_len(c: char)
    ensures
        vstd::utf8::encode_scalar(c as u32).len() == utf8_len(c),
{
}

/// `byte_len` is the length of the UTF-8 encoding.
pub proof fn lemma_byte_len_encode(s: Seq<char>)
    ensures
        vstd::utf8::encode_utf8(s).len() == byte_len(s),
    decreases s.len(),
{
    if s.len() > 0 {
        lemma_byte_len_encode(s.drop_first());
        lemma_utf8_scalar_len(s[0]);
        assert(s =~= seq![s[0]] + s.drop_first());
        lemma_byte_len_concat(seq![s[0]], s.drop_first());
        assert(seq![s[0]].drop_last() =~= Seq::<char>::empty());
        assert(byte_len(Seq::<char>::empty()) == 0);
        assert(byte_len(seq![s[0]]) == utf8_len(s[0]));
        assert(vstd::utf8::encode_utf8(s) == vstd::utf8::encode_scalar(s[0] as u32)
            + vstd::utf8::encode_utf8(s.drop_first()));
    }
}

/// The byte length of `s` (`str::len`).
pub fn str_byte_len(s: &str) -> (n: usize)
    ensures
        n == byte_len(s@),
{
    let b = s.as_bytes();
    proof {
        lemma_byte_len_encode(s@);
    }
    b.len()
}

/// Byte offsets of every character boundary of `t`: `r[i]` is the offset of
/// `t[i]`, and `r[t.len()]` the total.
pub fn byte_offsets(t: &[char]) -> (r: Vec<usize>)
    requires
        byte_len(t@) <= usize::MAX,
    ensures
        r@.len() == t@.len() + 1,
        forall|i: int| 0 <= i <= t@.len() ==> r@[i] == byte_len(#[trigger] t@.take(i)),
{
    let mut r: Vec<usize> = Vec::new();
    let mut off: usize = 0;
    let mut i: usize = 0;
    r.push(0);
    assert(t@.take(0) =~= Seq::<char>::empty());
    while i < t.len()
        invariant
            i <= t@.len(),
            r@.len() == i + 1,
            off == byte_len(t@.take(i as int)),
            forall|k: int| 0 <= k <= i ==> r@[k] == byte_len(#[trigger] t@.take(k)),
            byte_len(t@) <= usize::MAX,
        decreases t.len() - i,
    {
        proof {
            assert(t@.take(i + 1).drop_last() =~= t@.take(i as int));
            assert(t@.take(i + 1) + t@.skip(i + 1) =~= t@);
            lemma_byte_len_concat(t@.take(i + 1), t@.skip(i + 1));
        }
        off = off + char_utf8_len(t[i]);
        r.push(off);
        i += 1;
    }
    r
}

/// Whether a character is alphabetic or numeric, as computed by
/// `char::is_alphanumeric` (Unicode `Alphabetic` or `Numeric`).
pub uninterp spec fn alphanumeric(c: char) -> bool;

/// Calls `char::is_alphanumeric`.
/// Claimed: the result is `alphanumeric(c)`; nothing else is stated.
#[verifier::external_body]
pub(crate) fn is_alphanumeric(c: char) -> (r: bool)
    ensures
        r == alphanumeric(c),
{
    c.is_alphanumeric()
}

/// The first index at or after `i` where `p` occurs in `s`.
pub open spec fn find_spec(s: Seq<char>, p: Seq<char>, i: int) -> Option<int>
    decreases s.len() + 1 - i,
{
    if i < 0 || i > s.len() {
        None
    } else if occurs_at(s, p, i) {
        Some(i)
    } else {
        find_spec(s, p, i + 1)
    }
}

/// The first index at or after `from` where `p` occurs in `s`.
pub fn find_first(s: &[char], p: &[char], from: usize) -> (r: Option<usize>)
    requires
        from <= s@.len(),
    ensures
        r == (match find_spec(s@, p@, from as int) {
            Some(i) => Some(i as usize),
            None => None::<usize>,
        }),
        match r {
            Some(i) => from <= i && i + p@.len() <= s@.len(),
            None => true,
        },
{
    let mut i = from;
    while i < s.len()
        invariant
            from <= i <= s@.len(),
            find_spec(s@, p@, from as int) == find_spec(s@, p@, i as int),
        decreases s.len() - i,
    {
        if matches_at(s, i, p) {
            return Some(i);
        }
        i += 1;
    }
    if matches_at(s, i, p) {
        return Some(i);
    }
    proof {
        assert(find_spec(s@, p@, i + 1) == None::<int>);
    }
    None
}

/// `p` without a final `\r`.
pub open spec fn strip_cr(p: Seq<char>) -> Seq<char> {
    if p.len() > 0 && p.last() == '\r' {
        p.drop_last()
    } else {
        p
    }
}

/// The pieces of `s` after each newline, with the newline kept (as
/// `str::split_inclusive('\n')`): no empty piece at the end.
pub open spec fn incl_lines(s: Seq<char>) -> Seq<Seq<char>> {
    let pieces = split_on(s, '\n');
    let n = pieces.len() - 1;
    Seq::new(n as nat, |k: int| pieces[k].push('\n')) + if pieces.last().len() > 0 {
        seq![pieces.last()]
    } else {
        Seq::<Seq<char>>::empty()
    }
}

/// The lines of `s` as `str::lines` yields them: split at `\n`, a `\r`
/// before the `\n` dropped, and no empty line after a final newline.
pub open spec fn str_lines(s: Seq<char>) -> Seq<Seq<char>> {
    let pieces = split_on(s, '\n');
    let n = pieces.len() - 1;
    Seq::new(n as nat, |k: int| strip_cr(pieces[k])) + if pieces.last().len() > 0 {
        seq![pieces.last()]
    } else {
        Seq::<Seq<char>>::empty()
    }
}

/// `str::split_inclusive('\n')` over characters.
pub fn incl_lines_of(s: &[char]) -> (r: Vec<Vec<char>>)
    ensures
        view2(r@) == incl_lines(s@),
{
    let pieces = split_chars(s, '\n');
    proof {
        lemma_split_on_len(s@, '\n');
    }
    let n = pieces.len() - 1;
    let mut out: Vec<Vec<char>> = Vec::new();
    for k in 0..n
        invariant
            n == pieces@.len() - 1,
            view2(pieces@) == split_on(s@, '\n'),
            view2(out@) =~= Seq::new(k as nat, |x: int| pieces@[x]@.push('\n')),
    {
        let mut line = slice_chars(&pieces[k], 0, pieces[k].len());
        line.push('\n');
        assert(line@ =~= pieces@[k as int]@.push('\n'));
        let ghost prev = out@;
        out.push(line);
        assert(view2(out@) =~= view2(prev).push(pieces@[k as int]@.push('\n')));
    }
    if pieces[n].len() > 0 {
        let last = slice_chars(&pieces[n], 0, pieces[n].len());
        assert(last@ =~= pieces@[n as int]@);
        let ghost prev = out@;
        out.push(last);
        assert(view2(out@) =~= view2(prev).push(pieces@[n as int]@));
    }
    assert(view2(out@) =~= incl_lines(s@));
    out
}

/// `str::lines` over characters.
pub fn str_lines_of(s: &[char]) -> (r: Vec<Vec<char>>)
    ensures
        view2(r@) == str_lines(s@),
{
    let pieces = split_chars(s, '\n');
    proof {
        lemma_split_on_len(s@, '\n');
    }
    let n = pieces.len() - 1;
    let mut out: Vec<Vec<char>> = Vec::new();
    for k in 0..n
        invariant
            n == pieces@.len() - 1,
            view2(pieces@) == split_on(s@, '\n'),
            view2(out@) =~= Seq::new(k as nat, |x: int| strip_cr(pieces@[x]@)),
    {
        let p = &pieces[k];
        let end = if p.len() > 0 && p[p.len() - 1] == '\r' {
            p.len() - 1
        } else {
            p.len()
        };
        let line = slice_chars(p, 0, end);
        assert(line@ =~= strip_cr(p@));
        let ghost prev = out@;
        out.push(line);
        assert(view2(out@) =~= view2(prev).push(strip_cr(pieces@[k as int]@)));
    }
    if pieces[n].len() > 0 {
        let last = slice_chars(&pieces[n], 0, pieces[n].len());
        assert(last@ =~= pieces@[n as int]@);
        let ghost prev = out@;
        out.push(last);
        assert(view2(out@) =~= view2(prev).push(pieces@[n as int]@));
    }
    assert(view2(out@) =~= str_lines(s@));
    out
}

/// Value of a run of decimal digits.
pub open spec fn digits_value(s: Seq<char>) -> nat
    decreases s.len(),
{
    if s.len() == 0 {
        0
    } else {
        digits_value(s.drop_last()) * 10 + ((s.last() as u32) - ('0' as u32)) as nat
    }
}

pub open spec fn is_digit(c: char) -> bool {
    '0' <= c <= '9'
}

pub open spec fn all_digits(s: Seq<char>) -> bool {
    forall|k: int| 0 <= k < s.len() ==> is_digit(#[trigger] s[k])
}

/// What `s.parse::<usize>()` accepts: an optional `+`, then one or more
/// decimal digits, with a value that fits in `usize`.
pub open spec fn parse_usize_spec(s: Seq<char>) -> Option<nat> {
    let d = if s.len() > 0 && s[0] == '+' {
        s.drop_first()
    } else {
        s
    };
    if d.len() > 0 && all_digits(d) && digits_value(d) <= usize::MAX {
        Some(digits_value(d))
    } else {
        None
    }
}

proof fn lemma_digits_grow(s: Seq<char>, k: int)
    requires
        0 <= k <= s.len(),
    ensures
        digits_value(s.take(k)) <= digits_value(s),
    decreases s.len() - k,
{
    if k < s.len() {
        lemma_digits_grow(s, k + 1);
        assert(s.take(k + 1).drop_last() =~= s.take(k));
    } else {
        assert(s.take(k) =~= s);
    }
}

/// `str::parse::<usize>` over characters.
pub fn parse_usize(s: &[char]) -> (r: Option<usize>)
    ensures
        r == (match parse_usize_spec(s@) {
            Some(v) => Some(v as usize),
            None => None::<usize>,
        }),
{
    let start: usize = if s.len() > 0 && s[0] == '+' {
        1
    } else {
        0
    };
    let ghost d = if s@.len() > 0 && s@[0] == '+' {
        s@.drop_first()
    } else {
        s@
    };
    assert(d =~= s@.skip(start as int));
    if start >= s.len() {
        return None;
    }
    let mut v: usize = 0;
    let mut i = start;
    while i < s.len()
        invariant
            start <= i <= s@.len(),
            start < s@.len(),
            d == s@.skip(start as int),
            d == (if s@.len() > 0 && s@[0] == '+' {
                s@.drop_first()
            } else {
                s@
            }),
            all_digits(s@.subrange(start as int, i as int)),
            v == digits_value(s@.subrange(start as int, i as int)),
        decreases s.len() - i,
    {
        let c = s[i];
        assert(s@.subrange(start as int, i + 1).drop_last() =~= s@.subrange(start as int, i as int));
        if !('0' <= c && c <= '9') {
            assert(!is_digit(d[i - start]));
            assert(!all_digits(d));
            assert(parse_usize_spec(s@) is None);
            return None;
        }
        let dv = (c as u32 - '0' as u32) as usize;
        if v > (usize::MAX - dv) / 10 {
            proof {
                assert(v * 10 + dv > usize::MAX) by (nonlinear_arith)
                    requires
                        v > (usize::MAX - dv) / 10,
                        dv <= 9,
                ;
                assert(s@.subrange(start as int, i + 1) =~= d.take(i - start + 1));
                assert(digits_value(d.take(i - start + 1)) == v * 10 + dv);
                lemma_digits_grow(d, i - start + 1);
                assert(parse_usize_spec(s@) is None);
            }
            return None;
        }
        v = v * 10 + dv;
        i += 1;
    }
    assert(s@.subrange(start as int, i as int) =~= d);
    Some(v)
}

pub proof fn lemma_find_spec(s: Seq<char>, p: Seq<char>, i: int)
    requires
        0 <= i,
    ensures
        match find_spec(s, p, i) {
            Some(j) => i <= j && occurs_at(s, p, j) && forall|k: int| i <= k < j ==> !occurs_at(s, p, k),
            None => forall|k: int| i <= k ==> !occurs_at(s, p, k),
        },
    decreases s.len() + 1 - i,
{
    if 0 <= i <= s.len() && !occurs_at(s, p, i) {
        lemma_find_spec(s, p, i + 1);
    }
}

/// The whitespace-separated words of `s` (as `str::split_whitespace`).
pub open spec fn ws_tokens(s: Seq<char>) -> Seq<Seq<char>>
    decreases s.len(),
{
    if s.len() == 0 {
        seq![]
    } else {
        let prev = ws_tokens(s.drop_last());
        let c = s.last();
        if is_ws(c) {
            prev
        } else if s.len() >= 2 && !is_ws(s[s.len() - 2]) && prev.len() > 0 {
            prev.update(prev.len() - 1, prev.last().push(c))
        } else {
            prev.push(seq![c])
        }
    }
}

/// `str::split_whitespace` over characters.
pub fn ws_tokens_of(s: &[char]) -> (r: Vec<Vec<char>>)
    ensures
        view2(r@) == ws_tokens(s@),
{
    let mut out: Vec<Vec<char>> = Vec::new();
    let mut i: usize = 0;
    while i < s.len()
        invariant
            i <= s@.len(),
            view2(out@) == ws_tokens(s@.take(i as int)),
            i > 0 && !is_ws(s@[i - 1]) ==> out@.len() > 0,
        decreases s.len() - i,
    {
        let c = s[i];
        let ghost prev = view2(out@);
        assert(s@.take(i + 1).drop_last() =~= s@.take(i as int));
        if is_whitespace(c) {
        } else if i >= 1 && !is_whitespace(s[i - 1]) && out.len() > 0 {
            let last = out.len() - 1;
            let mut tok = slice_chars(&out[last], 0, out[last].len());
            tok.push(c);
            assert(tok@ =~= prev.last().push(c));
            out.set(last, tok);
            assert(view2(out@) =~= prev.update(prev.len() - 1, prev.last().push(c)));
        } else {
            let mut tok: Vec<char> = Vec::new();
            tok.push(c);
            out.push(tok);
            assert(view2(out@) =~= prev.push(seq![c]));
        }
        i += 1;
    }
    assert(s@.take(i as int) =~= s@);
    out
}

/// `s` split at every non-overlapping occurrence of the non-empty `sep`,
/// left to right (as `str::split` with a string pattern).
pub open spec fn split_str(s: Seq<char>, sep: Seq<char>) -> Seq<Seq<char>>
    decreases s.len(),
{
    if sep.len() == 0 {
        seq![s]
    } else {
        match find_spec(s, sep, 0) {
            Some(i) => {
                proof {
                    lemma_find_spec(s, sep, 0);
                }
                seq![s.take(i)] + split_str(s.skip(i + sep.len()), sep)
            },
            None => seq![s],
        }
    }
}

/// `str::split` with a non-empty string pattern, over characters.
pub fn split_str_of(s: &[char], sep: &[char]) -> (r: Vec<Vec<char>>)
    requires
        sep@.len() > 0,
    ensures
        view2(r@) == split_str(s@, sep@),
{
    let mut out: Vec<Vec<char>> = Vec::new();
    let mut start: usize = 0;
    let len = s.len();
    assert(s@.skip(0) =~= s@);
    assert(view2(out@) + split_str(s@, sep@) =~= split_str(s@, sep@));
    loop
        invariant_except_break
            start <= len == s@.len(),
            sep@.len() > 0,
            view2(out@) + split_str(s@.skip(start as int), sep@) == split_str(s@, sep@),
        ensures
            view2(out@) == split_str(s@, sep@),
        decreases len - start,
    {
        let ghost rest = s@.skip(start as int);
        proof {
            crate::text::lemma_find_spec(rest, sep@, 0);
            crate::text::lemma_find_spec(s@, sep@, start as int);
            lemma_find_shift(s@, sep@, start as int);
        }
        match find_first(s, sep, start) {
            Some(i) => {
                let piece = slice_chars(s, start, i);
                let ghost prev = view2(out@);
                out.push(piece);
                proof {
                    let j = i - start;
                    assert(piece@ =~= rest.take(j));
                    assert(rest.skip(j + sep@.len()) =~= s@.skip(i + sep@.len()));
                    assert(view2(out@) =~= prev.push(rest.take(j)));
                    assert(split_str(rest, sep@) == seq![rest.take(j)] + split_str(
                        rest.skip(j + sep@.len()),
                        sep@,
                    ));
                    assert(prev.push(rest.take(j)) + split_str(s@.skip(i + sep@.len()), sep@)
                        =~= prev + split_str(rest, sep@));
                }
                start = i + sep.len();
            },
            None => {
                let piece = slice_chars(s, start, len);
                let ghost prev = view2(out@);
                out.push(piece);
                proof {
                    assert(piece@ =~= rest);
                    assert(split_str(rest, sep@) == seq![rest]);
                    assert(view2(out@) =~= prev + split_str(rest, sep@));
                }
                break;
            },
        }
    }
    out
}

proof fn lemma_find_shift(s: Seq<char>, p: Seq<char>, start: int)
    requires
        0 <= start <= s.len(),
    ensures
        match find_spec(s.skip(start), p, 0) {
            Some(j) => find_spec(s, p, start) == Some(j + start),
            None => find_spec(s, p, start) is None,
        },
{
    lemma_find_spec(s.skip(start), p, 0);
    lemma_find_spec(s, p, start);
    assert forall|k: int| 0 <= k implies occurs_at(s.skip(start), p, k) == occurs_at(s, p, k + start) by {
        if 0 <= k && k + p.len() <= s.len() - start {
            assert(s.skip(start).subrange(k, k + p.len()) =~= s.subrange(k + start, k + start + p.len()));
        }
    }
    match find_spec(s.skip(start), p, 0) {
        Some(j) => {
            match find_spec(s, p, start) {
                Some(m) => {
                    assert(occurs_at(s.skip(start), p, m - start));
                    assert(occurs_at(s, p, j + start));
                },
                None => {
                    assert(occurs_at(s, p, j + start));
                },
            }
        },
        None => {
            match find_spec(s, p, start) {
                Some(m) => {
                    assert(occurs_at(s.skip(start), p, m - start));
                },
                None => {},
            }
        },
    }
}

/// `parts` joined with `sep` (as `[String]::join`).
pub fn join_chars(parts: &Vec<Vec<char>>, sep: char) -> (r: Vec<char>)
    ensures
        r@ == join_with(view2(parts@), sep),
{
    let mut out: Vec<char> = Vec::new();
    let mut k: usize = 0;
    while k < parts.len()
        invariant
            k <= parts@.len(),
            out@ == join_with(view2(parts@).take(k as int), sep),
        decreases parts@.len() - k,
    {
        let ghost pv = view2(parts@);
        assert(pv.take(k + 1).drop_last() =~= pv.take(k as int));
        if k > 0 {
            out.push(sep);
        }
        extend_chars(&mut out, &parts[k]);
        proof {
            if k == 0 {
                assert(out@ =~= pv.take(1)[0]);
            } else {
                assert(out@ =~= join_with(pv.take(k as int), sep).push(sep) + pv.take(k + 1).last());
            }
        }
        k += 1;
    }
    assert(view2(parts@).take(k as int) =~= view2(parts@));
    out
}

pub proof fn lemma_split_count(s: Seq<char>, sep: char)
    ensures
        split_on(s, sep).len() <= s.len() + 1,
    decreases s.len(),
{
    if s.len() > 0 {
        lemma_split_count(s.drop_last(), sep);
        lemma_split_on_len(s.drop_last(), sep);
        let prev = split_on(s.drop_last(), sep);
        if s.last() == sep {
            assert(split_on(s, sep) == prev.push(seq![]));
        } else {
            assert(split_on(s, sep) == prev.update(prev.len() - 1, prev.last().push(s.last())));
        }
    }
}

/// The pieces of `s` after each `sep`, with the separator kept (as
/// `str::split_inclusive`): no empty piece at the end.
pub open spec fn split_incl(s: Seq<char>, sep: char) -> Seq<Seq<char>> {
    let pieces = split_on(s, sep);
    let n = pieces.len() - 1;
    Seq::new(n as nat, |k: int| pieces[k].push(sep)) + if pieces.last().len() > 0 {
        seq![pieces.last()]
    } else {
        Seq::<Seq<char>>::empty()
    }
}

/// `str::split_inclusive` with a character, over characters.
pub fn split_incl_of(s: &[char], sep: char) -> (r: Vec<Vec<char>>)
    ensures
        view2(r@) == split_incl(s@, sep),
{
    let pieces = split_chars(s, sep);
    proof {
        lemma_split_on_len(s@, sep);
    }
    let n = pieces.len() - 1;
    let mut out: Vec<Vec<char>> = Vec::new();
    for k in 0..n
        invariant
            n == pieces@.len() - 1,
            view2(pieces@) == split_on(s@, sep),
            view2(out@) =~= Seq::new(k as nat, |x: int| pieces@[x]@.push(sep)),
    {
        let mut line = slice_chars(&pieces[k], 0, pieces[k].len());
        line.push(sep);
        assert(line@ =~= pieces@[k as int]@.push(sep));
        let ghost prev = out@;
        out.push(line);
        assert(view2(out@) =~= view2(prev).push(pieces@[k as int]@.push(sep)));
    }
    if pieces[n].len() > 0 {
        let last = slice_chars(&pieces[n], 0, pieces[n].len());
        assert(last@ =~= pieces@[n as int]@);
        let ghost prev = out@;
        out.push(last);
        assert(view2(out@) =~= view2(prev).push(pieces@[n as int]@));
    }
    assert(view2(out@) =~= split_incl(s@, sep));
    out
}

/// The last index at or before `i` where `p` occurs in `s`.
pub open spec fn rfind_spec(s: Seq<char>, p: Seq<char>, i: int) -> Option<int>
    decreases i + 1,
{
    if i < 0 {
        None
    } else if occurs_at(s, p, i) {
        Some(i)
    } else {
        rfind_spec(s, p, i - 1)
    }
}

pub proof fn lemma_rfind_spec(s: Seq<char>, p: Seq<char>, i: int)
    ensures
        match rfind_spec(s, p, i) {
            Some(j) => j <= i && occurs_at(s, p, j),
            None => true,
        },
    decreases i + 1,
{
    if i >= 0 && !occurs_at(s, p, i) {
        lemma_rfind_spec(s, p, i - 1);
    }
}

/// The last index where `p` occurs in `s` (as `str::rfind`).
pub fn rfind_chars(s: &[char], p: &[char]) -> (r: Option<usize>)
    ensures
        r == (match rfind_spec(s@, p@, s@.len() as int) {
            Some(i) => Some(i as usize),
            None => None::<usize>,
        }),
{
    let mut i = s.len();
    proof {
        lemma_rfind_spec(s@, p@, s@.len() as int);
    }
    loop
        invariant
            i <= s@.len(),
            rfind_spec(s@, p@, s@.len() as int) == rfind_spec(s@, p@, i as int),
        decreases i,
    {
        if matches_at(s, i, p) {
            return Some(i);
        }
        if i == 0 {
            assert(rfind_spec(s@, p@, -1) is None);
            return None;
        }
        i -= 1;
    }
}

/// Calls `String::from_utf8`.
/// Claimed (as its documentation states): it succeeds exactly when the
/// bytes are valid UTF-8, with the text they encode.
#[verifier::external_body]
pub(crate) fn utf8_text(bytes: Vec<u8>) -> (r: Option<String>)
    ensures
        r is Some <==> vstd::utf8::valid_utf8(bytes@),
        r matches Some(s) ==> s@ == vstd::utf8::decode_utf8(bytes@),
{
    String::from_utf8(bytes).ok()
}

} // verus!
