//! Unicode segmentation and display width, provided by outside crates.
use unicode_segmentation::UnicodeSegmentation;
use unicode_width::{UnicodeWidthChar, UnicodeWidthStr};
use vstd::prelude::*;

use crate::text::view2;

verus! {

/// The extended grapheme clusters of a text (UAX #29), as computed by
/// `unicode_segmentation::UnicodeSegmentation::graphemes(s, true)`.
pub uninterp spec fn grapheme_clusters(s: Seq<char>) -> Seq<Seq<char>>;

/// The displayed width in terminal columns of a text, as computed by
/// `unicode_width::UnicodeWidthStr::width`.
pub uninterp spec fn display_width(s: Seq<char>) -> nat;

/// Calls `UnicodeSegmentation::graphemes(s, true)` and collects the clusters.
/// Claimed: the result is `grapheme_clusters(s)`; the clusters are the
/// consecutive, non-empty slices of `s` between boundaries, so they
/// concatenate back to `s` (the iterator's `next` returns `s[start..next]`
/// with `next` the following boundary).
#[verifier::external_body]
pub(crate) fn graphemes_of(s: &[char]) -> (r: Vec<Vec<char>>)
    ensures
        view2(r@) == grapheme_clusters(s@),
        view2(r@).flatten() == s@,
        forall|i: int| 0 <= i < r@.len() ==> r@[i]@.len() > 0,
{
    let st: String = s.iter().collect();
    st.graphemes(true).map(|g| g.chars().collect()).collect()
}

/// Calls `UnicodeWidthStr::width` on the text of `s`.
/// Claimed: the result is `display_width(s)`; nothing else is stated.
#[verifier::external_body]
pub(crate) fn width_of(s: &[char]) -> (r: usize)
    ensures
        r == display_width(s@),
{
    let st: String = s.iter().collect();
    UnicodeWidthStr::width(st.as_str())
}

/// The displayed width of one character, or none for a control
/// character, as computed by `unicode_width::UnicodeWidthChar::width`.
pub uninterp spec fn char_width(c: char) -> Option<nat>;

/// Calls `UnicodeWidthChar::width(c)`.
/// Claimed: the result is `char_width(c)`; nothing else is stated.
#[verifier::external_body]
pub(crate) fn char_width_of(c: char) -> (r: Option<usize>)
    ensures
        match r {
            Some(w) => char_width(c) == Some(w as nat),
            None => char_width(c) is None,
        },
{
    UnicodeWidthChar::width(c)
}

} // verus!
