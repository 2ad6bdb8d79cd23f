//! A small multiline text editor over grapheme clusters, independent of the agent.
//!
//! The editor's state is modelled by `EditorView`: its lines (each a sequence of
//! grapheme clusters), the cursor, the selection, the scroll row, the undo and
//! redo stacks and the internal clipboard.
use vstd::prelude::*;

use crate::text::{
    byte_len, chars_byte_len, extend_chars, join_with, lemma_byte_len_concat, lemma_join_split, lemma_split_on_len, slice_chars, split_chars, split_on,
    string_of, trim_chars, trim_spec, view2, chars_of,
};
use vstd::seq_lib::lemma_flatten_concat;
use crate::unicode::{display_width, grapheme_clusters, graphemes_of, width_of};

verus! {

/// A position: row index and column in grapheme clusters.
#[derive(Debug, Clone, Copy, PartialEq, Eq, Structural, PartialOrd, Ord)]
pub struct Cursor {
    pub row: usize,
    pub col: usize,
}

/// A selection from `anchor` (where it started) to `focus` (where the cursor is).
#[derive(Debug, Clone, Copy, PartialEq, Eq, Structural)]
pub struct Selection {
    pub anchor: Cursor,
    pub focus: Cursor,
}

/// Logical editor actions, mapped from terminal-specific key events elsewhere.
#[derive(Debug, Clone, PartialEq, Eq)]
pub enum EditorAction {
    MoveLeft,
    MoveRight,
    MoveUp,
    MoveDown,
    MoveWordLeft,
    MoveWordRight,
    MoveToLineStart,
    MoveToLineEnd,
    MoveToDocStart,
    MoveToDocEnd,
    SelectLeft,
    SelectRight,
    SelectUp,
    SelectDown,
    SelectWordLeft,
    SelectWordRight,
    SelectToLineStart,
    SelectToLineEnd,
    SelectToDocStart,
    SelectToDocEnd,
    SelectAll,
    DeleteBackward,
    DeleteForward,
    DeleteWordBackward,
    DeleteToLineStart,
    InsertChar(char),
    InsertNewline,
    Copy,
    Cut,
    /// Paste the editor's internal clipboard.
    PasteClipboard,
    /// Insert terminal paste content (may contain newlines) as a single logical op.
    Paste(String),
    Undo,
    Redo,
}

/// One saved editor state, as kept on the undo and redo stacks.
pub struct Snapshot {
    pub lines: Seq<Seq<Seq<char>>>,
    pub cursor: Cursor,
    pub selection: Option<Selection>,
}

/// The abstract state of a `TextEditor`.
pub struct EditorView {
    pub lines: Seq<Seq<Seq<char>>>,
    pub cursor: Cursor,
    pub selection: Option<Selection>,
    pub scroll_row: nat,
    pub undo: Seq<Snapshot>,
    pub redo: Seq<Snapshot>,
    pub clipboard: Seq<char>,
}

struct Edit {
    lines: Vec<Vec<Vec<char>>>,
    cursor: Cursor,
    selection: Option<Selection>,
}

/// A small multiline text editor, independent of the LLM/agent.
pub struct TextEditor {
    lines: Vec<Vec<Vec<char>>>,
    cursor: Cursor,
    selection: Option<Selection>,
    scroll_row: usize,
    undo: Vec<Edit>,
    redo: Vec<Edit>,
    clipboard: Vec<char>,
}

// ---------------------------------------------------------------------------
// The model
// ---------------------------------------------------------------------------
/// Lines of grapheme clusters, viewed as sequences.
pub open spec fn gview(v: Seq<Vec<Vec<char>>>) -> Seq<Seq<Seq<char>>> {
    Seq::new(v.len(), |i: int| view2(v[i]@))
}

pub open spec fn cursor_at(row: int, col: int) -> Cursor {
    Cursor { row: row as usize, col: col as usize }
}

/// `a` comes no later than `b`.
pub open spec fn cursor_le(a: Cursor, b: Cursor) -> bool {
    a.row < b.row || (a.row == b.row && a.col <= b.col)
}

/// The ordered ends of a selection: (start, end).
pub open spec fn sel_range(s: Selection) -> (Cursor, Cursor) {
    if cursor_le(s.anchor, s.focus) {
        (s.anchor, s.focus)
    } else {
        (s.focus, s.anchor)
    }
}

pub open spec fn valid_cursor(l: Seq<Seq<Seq<char>>>, c: Cursor) -> bool {
    c.row < l.len() && c.col <= l[c.row as int].len()
}

pub open spec fn valid_sel(l: Seq<Seq<Seq<char>>>, s: Option<Selection>) -> bool {
    s matches Some(x) ==> valid_cursor(l, x.anchor) && valid_cursor(l, x.focus)
}

/// Every grapheme cluster of the lines holds at least one character.
pub open spec fn clusters_nonempty(l: Seq<Seq<Seq<char>>>) -> bool {
    forall|r: int, k: int| 0 <= r < l.len() && 0 <= k < l[r].len() ==> (#[trigger] l[r][k]).len() > 0
}

/// A state in which no operation of the editor indexes out of bounds, and
/// whose lines hold no empty cluster.
pub open spec fn snap_ok(s: Snapshot) -> bool {
    &&& s.lines.len() >= 1
    &&& valid_cursor(s.lines, s.cursor)
    &&& valid_sel(s.lines, s.selection)
    &&& clusters_nonempty(s.lines)
}

/// The text of one line.
pub open spec fn line_text(l: Seq<Seq<char>>) -> Seq<char> {
    l.flatten()
}

/// The whole text: lines joined with newlines.
pub open spec fn text_spec(l: Seq<Seq<Seq<char>>>) -> Seq<char> {
    join_with(Seq::new(l.len(), |i: int| line_text(l[i])), '\n')
}

/// Whether a grapheme cluster is blank (trims to nothing).
pub open spec fn blank(g: Seq<char>) -> bool {
    trim_spec(g).len() == 0
}

/// Line `text` as grapheme clusters, one entry per `'\n'`-separated piece.
pub open spec fn lines_of(text: Seq<char>) -> Seq<Seq<Seq<char>>> {
    Seq::new(
        split_on(text, '\n').len(),
        |i: int| grapheme_clusters(split_on(text, '\n')[i]),
    )
}

/// Lines after deleting the text between `s` and `e`.
pub open spec fn delete_range_spec(l: Seq<Seq<Seq<char>>>, s: Cursor, e: Cursor) -> Seq<
    Seq<Seq<char>>,
> {
    if s == e {
        l
    } else {
        l.take(s.row as int) + seq![
            l[s.row as int].take(s.col as int) + l[e.row as int].skip(e.col as int),
        ] + l.skip(e.row + 1)
    }
}

/// Line `i` of the inserted block: `pre` joins the first part, `post` the last.
pub open spec fn mid_line(
    pre: Seq<Seq<char>>,
    post: Seq<Seq<char>>,
    parts: Seq<Seq<Seq<char>>>,
    i: int,
) -> Seq<Seq<char>> {
    (if i == 0 {
        pre
    } else {
        Seq::<Seq<char>>::empty()
    }) + parts[i] + (if i == parts.len() - 1 {
        post
    } else {
        Seq::<Seq<char>>::empty()
    })
}

/// Lines after inserting `parts` (one entry per line of inserted text) at `c`.
pub open spec fn insert_parts_spec(
    l: Seq<Seq<Seq<char>>>,
    c: Cursor,
    parts: Seq<Seq<Seq<char>>>,
) -> Seq<Seq<Seq<char>>> {
    let pre = l[c.row as int].take(c.col as int);
    let post = l[c.row as int].skip(c.col as int);
    let mid = Seq::new(parts.len(), |i: int| mid_line(pre, post, parts, i));
    l.take(c.row as int) + mid + l.skip(c.row + 1)
}

/// The cursor after inserting `parts` at `c`.
pub open spec fn insert_parts_cursor(c: Cursor, parts: Seq<Seq<Seq<char>>>) -> Cursor {
    if parts.len() == 1 {
        cursor_at(c.row as int, c.col + parts[0].len())
    } else {
        cursor_at(c.row + parts.len() - 1, parts[parts.len() - 1].len() as int)
    }
}

/// The grapheme lines of `t`, as the editor inserts them.
pub open spec fn text_parts(t: Seq<char>) -> Seq<Seq<Seq<char>>> {
    lines_of(t)
}

/// Lines after splitting the line at `c` in two.
pub open spec fn split_line_spec(l: Seq<Seq<Seq<char>>>, c: Cursor) -> Seq<Seq<Seq<char>>> {
    l.take(c.row as int) + seq![
        l[c.row as int].take(c.col as int),
        l[c.row as int].skip(c.col as int),
    ] + l.skip(c.row + 1)
}

/// The grapheme cluster just before a position, looking across a line break.
pub open spec fn before_spec(l: Seq<Seq<Seq<char>>>, r: int, c: int) -> Option<Seq<char>> {
    if c > 0 {
        if 0 <= r < l.len() && c - 1 < l[r].len() {
            Some(l[r][c - 1])
        } else {
            None
        }
    } else if r > 0 {
        if r - 1 < l.len() && l[r - 1].len() > 0 {
            Some(l[r - 1].last())
        } else {
            None
        }
    } else {
        None
    }
}

/// The grapheme cluster at a position.
pub open spec fn at_spec(l: Seq<Seq<Seq<char>>>, r: int, c: int) -> Option<Seq<char>> {
    if 0 <= r < l.len() && 0 <= c < l[r].len() {
        Some(l[r][c])
    } else {
        None
    }
}

/// Move backward over clusters while they are blank (`ws`) or not blank (`!ws`).
pub open spec fn skip_left(l: Seq<Seq<Seq<char>>>, r: nat, c: nat, ws: bool) -> (nat, nat)
    decreases r, c,
{
    match before_spec(l, r as int, c as int) {
        Some(g) => if blank(g) == ws {
            if c > 0 {
                skip_left(l, r, (c - 1) as nat, ws)
            } else if r > 0 {
                skip_left(l, (r - 1) as nat, l[r - 1].len(), ws)
            } else {
                (r, c)
            }
        } else {
            (r, c)
        },
        None => (r, c),
    }
}

/// Move forward over clusters while they are not blank (`!ws`) or blank (`ws`).
pub open spec fn skip_right(l: Seq<Seq<Seq<char>>>, r: nat, c: nat, ws: bool) -> (nat, nat)
    decreases l.len() - r, l[r as int].len() - c,
    when r < l.len() && c <= l[r as int].len()
{
    match at_spec(l, r as int, c as int) {
        Some(g) => if blank(g) == ws {
            if c < l[r as int].len() {
                skip_right(l, r, c + 1, ws)
            } else if r + 1 < l.len() {
                skip_right(l, r + 1, 0, ws)
            } else {
                (r, c)
            }
        } else {
            (r, c)
        },
        None => (r, c),
    }
}

/// Start of the word before the cursor (whitespace, then word clusters).
pub open spec fn word_left_spec(l: Seq<Seq<Seq<char>>>, cur: Cursor) -> Cursor {
    if cur.col == 0 && cur.row == 0 {
        cursor_at(0, 0)
    } else {
        let (r, c) = if cur.col == 0 {
            ((cur.row - 1) as nat, l[cur.row - 1].len())
        } else {
            (cur.row as nat, cur.col as nat)
        };
        let (r1, c1) = skip_left(l, r, c, true);
        let (r2, c2) = skip_left(l, r1, c1, false);
        cursor_at(r2 as int, c2 as int)
    }
}

/// Start of the next word after the cursor (word clusters, then whitespace).
pub open spec fn word_right_spec(l: Seq<Seq<Seq<char>>>, cur: Cursor) -> Cursor {
    if cur.col == l[cur.row as int].len() && cur.row + 1 >= l.len() {
        cursor_at(cur.row as int, l[cur.row as int].len() as int)
    } else {
        let (r, c) = if cur.col == l[cur.row as int].len() {
            ((cur.row + 1) as nat, 0nat)
        } else {
            (cur.row as nat, cur.col as nat)
        };
        let (r1, c1) = skip_right(l, r, c, false);
        let (r2, c2) = skip_right(l, r1, c1, true);
        cursor_at(r2 as int, c2 as int)
    }
}

/// The text between two positions, rows joined with newlines.
pub open spec fn selected_spec(l: Seq<Seq<Seq<char>>>, s: Cursor, e: Cursor) -> Seq<char> {
    join_with(
        Seq::new(
            (e.row - s.row + 1) as nat,
            |k: int|
                {
                    let r = s.row + k;
                    let line = l[r];
                    let a = if r == s.row {
                        s.col as int
                    } else {
                        0
                    };
                    let b = if r == e.row {
                        e.col as int
                    } else {
                        line.len() as int
                    };
                    let a2 = if a < line.len() {
                        a
                    } else {
                        line.len() as int
                    };
                    let b2 = if b < line.len() {
                        b
                    } else {
                        line.len() as int
                    };
                    line.subrange(a2, if b2 < a2 {
                        a2
                    } else {
                        b2
                    }).flatten()
                },
        ),
        '\n',
    )
}

/// The selection after a movement from `prev` to `cur`.
pub open spec fn moved_sel(sel: Option<Selection>, prev: Cursor, cur: Cursor, extend: bool) -> Option<
    Selection,
> {
    if extend {
        match sel {
            Some(s) => Some(Selection { anchor: s.anchor, focus: cur }),
            None => Some(Selection { anchor: prev, focus: cur }),
        }
    } else {
        None
    }
}

impl EditorView {
    pub open spec fn snap(self) -> Snapshot {
        Snapshot { lines: self.lines, cursor: self.cursor, selection: self.selection }
    }

    /// The editor's invariant: every state it holds, current or saved, is safe.
    pub open spec fn wf(self) -> bool {
        &&& snap_ok(self.snap())
        &&& self.undo.len() + self.redo.len() <= 100
        &&& forall|i: int| 0 <= i < self.undo.len() ==> snap_ok(#[trigger] self.undo[i])
        &&& forall|i: int| 0 <= i < self.redo.len() ==> snap_ok(#[trigger] self.redo[i])
    }

    /// The same editor with the current state replaced.
    pub open spec fn with(self, lines: Seq<Seq<Seq<char>>>, cursor: Cursor, selection: Option<Selection>) -> EditorView {
        EditorView { lines, cursor, selection, ..self }
    }

    /// State after saving the current state for undo (at most 100 kept) and
    /// dropping the redo stack.
    pub open spec fn begin_edit(self) -> EditorView {
        let u = self.undo.push(self.snap());
        EditorView {
            undo: if u.len() > 100 {
                u.drop_first()
            } else {
                u
            },
            redo: seq![],
            ..self
        }
    }

    pub open spec fn sel_start(self) -> Cursor {
        sel_range(self.selection.unwrap()).0
    }

    pub open spec fn line_len(self, r: int) -> int {
        self.lines[r].len() as int
    }

    pub open spec fn move_h(self, left: bool, extend: bool) -> EditorView {
        if !extend && self.selection is Some {
            self.with(self.lines, self.sel_start(), None)
        } else {
            let c = self.cursor;
            let n = if left {
                if c.col > 0 {
                    cursor_at(c.row as int, c.col - 1)
                } else if c.row > 0 {
                    cursor_at(c.row - 1, self.line_len(c.row - 1))
                } else {
                    c
                }
            } else {
                if c.col < self.line_len(c.row as int) {
                    cursor_at(c.row as int, c.col + 1)
                } else if c.row + 1 < self.lines.len() {
                    cursor_at(c.row + 1, 0)
                } else {
                    c
                }
            };
            self.with(self.lines, n, moved_sel(self.selection, c, n, extend))
        }
    }

    pub open spec fn move_v(self, up: bool, extend: bool) -> EditorView {
        if !extend && self.selection is Some {
            self.with(self.lines, self.sel_start(), None)
        } else {
            let c = self.cursor;
            let n = if up {
                if c.row == 0 {
                    cursor_at(0, 0)
                } else {
                    cursor_at(
                        c.row - 1,
                        if c.col <= self.line_len(c.row - 1) {
                            c.col as int
                        } else {
                            self.line_len(c.row - 1)
                        },
                    )
                }
            } else if c.row + 1 >= self.lines.len() {
                cursor_at(c.row as int, self.line_len(c.row as int))
            } else {
                cursor_at(
                    c.row + 1,
                    if c.col <= self.line_len(c.row + 1) {
                        c.col as int
                    } else {
                        self.line_len(c.row + 1)
                    },
                )
            };
            self.with(self.lines, n, moved_sel(self.selection, c, n, extend))
        }
    }

    pub open spec fn move_word(self, left: bool, extend: bool) -> EditorView {
        if !extend && self.selection is Some {
            self.with(self.lines, self.sel_start(), None)
        } else {
            let n = if left {
                word_left_spec(self.lines, self.cursor)
            } else {
                word_right_spec(self.lines, self.cursor)
            };
            self.with(self.lines, n, moved_sel(self.selection, self.cursor, n, extend))
        }
    }

    pub open spec fn move_line_edge(self, start: bool, extend: bool) -> EditorView {
        if !extend && self.selection is Some {
            self.with(self.lines, self.sel_start(), None)
        } else {
            let n = if start {
                cursor_at(self.cursor.row as int, 0)
            } else {
                cursor_at(self.cursor.row as int, self.line_len(self.cursor.row as int))
            };
            self.with(self.lines, n, moved_sel(self.selection, self.cursor, n, extend))
        }
    }

    pub open spec fn doc_end(self) -> Cursor {
        cursor_at(self.lines.len() - 1, self.line_len(self.lines.len() - 1))
    }

    pub open spec fn move_to_doc(self, start: bool) -> EditorView {
        let n = if start {
            cursor_at(0, 0)
        } else {
            self.doc_end()
        };
        self.with(self.lines, n, moved_sel(self.selection, self.cursor, n, true))
    }

    pub open spec fn delete_range(self, s: Cursor, e: Cursor) -> EditorView {
        self.with(delete_range_spec(self.lines, s, e), s, self.selection)
    }

    pub open spec fn insert_parts(self, parts: Seq<Seq<Seq<char>>>) -> EditorView {
        self.with(
            insert_parts_spec(self.lines, self.cursor, parts),
            insert_parts_cursor(self.cursor, parts),
            self.selection,
        )
    }

    /// Delete the selection, if any, clearing it.
    pub open spec fn take_selection(self) -> EditorView {
        match self.selection {
            Some(s) => self.with(self.lines, self.cursor, None).delete_range(
                sel_range(s).0,
                sel_range(s).1,
            ),
            None => self,
        }
    }

    pub open spec fn insert_plain(self, t: Seq<char>) -> EditorView {
        self.begin_edit().take_selection().insert_parts(text_parts(t))
    }

    pub open spec fn split_line(self) -> EditorView {
        self.with(
            split_line_spec(self.lines, self.cursor),
            cursor_at(self.cursor.row + 1, 0),
            self.selection,
        )
    }

    pub open spec fn insert_char(self, ch: char) -> EditorView {
        let v = self.begin_edit().take_selection();
        if ch == '\n' {
            v.split_line()
        } else {
            v.insert_parts(seq![seq![seq![ch]]])
        }
    }

    pub open spec fn delete_backward(self) -> EditorView {
        match self.selection {
            Some(s) => self.begin_edit().with(self.lines, self.cursor, None).delete_range(
                sel_range(s).0,
                sel_range(s).1,
            ),
            None => {
                let v = self.begin_edit();
                let c = self.cursor;
                if c.col > 0 {
                    let r = c.row as int;
                    v.with(
                        self.lines.update(r, self.lines[r].remove(c.col - 1)),
                        cursor_at(r, c.col - 1),
                        None,
                    )
                } else if c.row > 0 {
                    let r = c.row as int;
                    v.with(
                        self.lines.take(r - 1) + seq![self.lines[r - 1] + self.lines[r]]
                            + self.lines.skip(r + 1),
                        cursor_at(r - 1, self.line_len(r - 1)),
                        None,
                    )
                } else {
                    v
                }
            },
        }
    }

    pub open spec fn delete_forward(self) -> EditorView {
        match self.selection {
            Some(s) => self.begin_edit().with(self.lines, self.cursor, None).delete_range(
                sel_range(s).0,
                sel_range(s).1,
            ),
            None => {
                let v = self.begin_edit();
                let c = self.cursor;
                let r = c.row as int;
                if c.col < self.line_len(r) {
                    v.with(self.lines.update(r, self.lines[r].remove(c.col as int)), c, None)
                } else if r + 1 < self.lines.len() {
                    v.with(
                        self.lines.take(r) + seq![self.lines[r] + self.lines[r + 1]]
                            + self.lines.skip(r + 2),
                        c,
                        None,
                    )
                } else {
                    v
                }
            },
        }
    }

    pub open spec fn delete_word_backward(self) -> EditorView {
        if self.selection is Some {
            self.delete_backward()
        } else {
            self.begin_edit().delete_range(word_left_spec(self.lines, self.cursor), self.cursor)
        }
    }

    pub open spec fn delete_to_line_start(self) -> EditorView {
        if self.selection is Some {
            self.delete_backward()
        } else {
            self.begin_edit().delete_range(cursor_at(self.cursor.row as int, 0), self.cursor)
        }
    }

    pub open spec fn selected(self) -> Option<Seq<char>> {
        match self.selection {
            Some(s) => Some(selected_spec(self.lines, sel_range(s).0, sel_range(s).1)),
            None => None,
        }
    }

    pub open spec fn undo_step(self) -> EditorView {
        if self.undo.len() > 0 {
            let p = self.undo.last();
            EditorView {
                lines: p.lines,
                cursor: p.cursor,
                selection: p.selection,
                undo: self.undo.drop_last(),
                redo: self.redo.push(self.snap()),
                ..self
            }
        } else {
            self
        }
    }

    pub open spec fn redo_step(self) -> EditorView {
        if self.redo.len() > 0 {
            let p = self.redo.last();
            EditorView {
                lines: p.lines,
                cursor: p.cursor,
                selection: p.selection,
                undo: self.undo.push(self.snap()),
                redo: self.redo.drop_last(),
                ..self
            }
        } else {
            self
        }
    }

    /// The effect of one editor action.
    pub open spec fn apply(self, a: EditorAction) -> EditorView {
        match a {
            EditorAction::MoveLeft => self.move_h(true, false),
            EditorAction::MoveRight => self.move_h(false, false),
            EditorAction::MoveUp => self.move_v(true, false),
            EditorAction::MoveDown => self.move_v(false, false),
            EditorAction::MoveWordLeft => self.move_word(true, false),
            EditorAction::MoveWordRight => self.move_word(false, false),
            EditorAction::MoveToLineStart => self.move_line_edge(true, false),
            EditorAction::MoveToLineEnd => self.move_line_edge(false, false),
            EditorAction::MoveToDocStart => self.begin_edit().with(self.lines, cursor_at(0, 0), None),
            EditorAction::MoveToDocEnd => self.begin_edit().with(self.lines, self.doc_end(), None),
            EditorAction::SelectLeft => self.move_h(true, true),
            EditorAction::SelectRight => self.move_h(false, true),
            EditorAction::SelectUp => self.move_v(true, true),
            EditorAction::SelectDown => self.move_v(false, true),
            EditorAction::SelectWordLeft => self.move_word(true, true),
            EditorAction::SelectWordRight => self.move_word(false, true),
            EditorAction::SelectToLineStart => self.move_line_edge(true, true),
            EditorAction::SelectToLineEnd => self.move_line_edge(false, true),
            EditorAction::SelectToDocStart => self.move_to_doc(true),
            EditorAction::SelectToDocEnd => self.move_to_doc(false),
            EditorAction::SelectAll => self.begin_edit().with(
                self.lines,
                self.doc_end(),
                Some(Selection { anchor: cursor_at(0, 0), focus: self.doc_end() }),
            ),
            EditorAction::DeleteBackward => self.delete_backward(),
            EditorAction::DeleteForward => self.delete_forward(),
            EditorAction::DeleteWordBackward => self.delete_word_backward(),
            EditorAction::DeleteToLineStart => self.delete_to_line_start(),
            EditorAction::InsertChar(ch) => self.insert_char(ch),
            EditorAction::InsertNewline => self.begin_edit().take_selection().split_line(),
            EditorAction::Copy => match self.selected() {
                Some(t) => EditorView { clipboard: t, ..self },
                None => self,
            },
            EditorAction::Cut => match self.selection {
                Some(s) => {
                    let v = self.begin_edit();
                    EditorView { clipboard: self.selected().unwrap(), ..v }.with(
                        self.lines,
                        self.cursor,
                        None,
                    ).delete_range(sel_range(s).0, sel_range(s).1)
                },
                None => self,
            },
            EditorAction::PasteClipboard => if self.clipboard.len() > 0 {
                self.insert_plain(self.clipboard)
            } else {
                self
            },
            EditorAction::Paste(t) => self.insert_plain(t@),
            EditorAction::Undo => self.undo_step(),
            EditorAction::Redo => self.redo_step(),
        }
    }
}

impl Edit {
    spec fn snap(&self) -> Snapshot {
        Snapshot { lines: gview(self.lines@), cursor: self.cursor, selection: self.selection }
    }
}

impl View for TextEditor {
    type V = EditorView;

    closed spec fn view(&self) -> EditorView {
        EditorView {
            lines: gview(self.lines@),
            cursor: self.cursor,
            selection: self.selection,
            scroll_row: self.scroll_row as nat,
            undo: Seq::new(self.undo@.len(), |i: int| self.undo@[i].snap()),
            redo: Seq::new(self.redo@.len(), |i: int| self.redo@[i].snap()),
            clipboard: self.clipboard@,
        }
    }
}

// ---------------------------------------------------------------------------
// Helpers on lines
// ---------------------------------------------------------------------------
fn copy_chars(v: &Vec<char>) -> (r: Vec<char>)
    ensures
        r@ == v@,
{
    slice_chars(v.as_slice(), 0, v.len())
}

/// Copy of graphemes `v[a..b]`.
fn copy_graphemes(v: &Vec<Vec<char>>, a: usize, b: usize) -> (r: Vec<Vec<char>>)
    requires
        a <= b <= v@.len(),
    ensures
        view2(r@) == view2(v@).subrange(a as int, b as int),
{
    let mut r: Vec<Vec<char>> = Vec::new();
    let mut i = a;
    while i < b
        invariant
            a <= i <= b <= v@.len(),
            view2(r@) == view2(v@).subrange(a as int, i as int),
        decreases b - i,
    {
        let x = copy_chars(&v[i]);
        let ghost prev = r@;
        r.push(x);
        proof {
            assert(r@ == prev.push(x));
            assert(view2(r@) =~= view2(prev).push(x@));
        }
        i += 1;
        assert(view2(r@) =~= view2(v@).subrange(a as int, i as int));
    }
    r
}

/// Copy of lines `v[a..b]`.
fn copy_lines(v: &Vec<Vec<Vec<char>>>, a: usize, b: usize) -> (r: Vec<Vec<Vec<char>>>)
    requires
        a <= b <= v@.len(),
    ensures
        gview(r@) == gview(v@).subrange(a as int, b as int),
{
    let mut r: Vec<Vec<Vec<char>>> = Vec::new();
    let mut i = a;
    while i < b
        invariant
            a <= i <= b <= v@.len(),
            gview(r@) == gview(v@).subrange(a as int, i as int),
        decreases b - i,
    {
        let n = v[i].len();
        let x = copy_graphemes(&v[i], 0, n);
        let ghost prev = r@;
        r.push(x);
        proof {
            assert(r@ == prev.push(x));
            assert(gview(r@) =~= gview(prev).push(view2(x@)));
        }
        i += 1;
        proof {
            assert(view2(v@[i - 1]@).subrange(0, n as int) =~= view2(v@[i - 1]@));
            assert(gview(r@) =~= gview(v@).subrange(a as int, i as int));
        }
    }
    r
}

/// Append the graphemes of `src` to `dst`.
fn append_graphemes(dst: &mut Vec<Vec<char>>, src: &Vec<Vec<char>>)
    ensures
        view2(final(dst)@) == view2(old(dst)@) + view2(src@),
{
    let n = src.len();
    let mut c = copy_graphemes(src, 0, n);
    proof {
        assert(view2(src@).subrange(0, n as int) =~= view2(src@));
    }
    let ghost d0 = view2(dst@);
    dst.append(&mut c);
    assert(view2(dst@) =~= d0 + view2(src@));
}

/// Replace lines `[from, to)` with `mid`.
fn splice_lines(lines: &mut Vec<Vec<Vec<char>>>, from: usize, to: usize, mid: Vec<Vec<Vec<char>>>)
    requires
        from <= to <= old(lines)@.len(),
    ensures
        gview(final(lines)@) == gview(old(lines)@).take(from as int) + gview(mid@) + gview(
            old(lines)@,
        ).skip(to as int),
{
    let ghost g = gview(lines@);
    let mut tail = lines.split_off(to);
    lines.truncate(from);
    let mut mid = mid;
    let ghost gm = gview(mid@);
    lines.append(&mut mid);
    lines.append(&mut tail);
    assert(gview(lines@) =~= g.take(from as int) + gm + g.skip(to as int));
}


/// The grapheme lines of `t`: one entry per `'\n'`-separated piece.
fn text_lines(t: &[char]) -> (r: Vec<Vec<Vec<char>>>)
    ensures
        gview(r@) == lines_of(t@),
        r@.len() >= 1,
        text_spec(gview(r@)) == t@,
        forall|i: int, j: int|
            0 <= i < r@.len() && 0 <= j < r@[i]@.len() ==> (#[trigger] r@[i]@[j])@.len() > 0,
{
    let pieces = split_chars(t, '\n');
    let ghost sp = split_on(t@, '\n');
    proof {
        lemma_split_on_len(t@, '\n');
        lemma_join_split(t@, '\n');
    }
    let mut out: Vec<Vec<Vec<char>>> = Vec::new();
    let mut i: usize = 0;
    while i < pieces.len()
        invariant
            view2(pieces@) == sp,
            sp == split_on(t@, '\n'),
            i <= pieces@.len(),
            out@.len() == i,
            forall|k: int| 0 <= k < i ==> (#[trigger] gview(out@)[k]) == grapheme_clusters(sp[k]),
            forall|k: int| 0 <= k < i ==> line_text(#[trigger] gview(out@)[k]) == sp[k],
            forall|k: int, j: int|
                0 <= k < out@.len() && 0 <= j < out@[k]@.len() ==> (#[trigger] out@[k]@[j])@.len()
                    > 0,
        decreases pieces.len() - i,
    {
        let g = graphemes_of(pieces[i].as_slice());
        let ghost prev = out@;
        out.push(g);
        proof {
            assert(view2(pieces@)[i as int] == pieces@[i as int]@);
            assert(pieces@[i as int]@ == sp[i as int]);
            assert(out@ == prev.push(g));
            assert(gview(out@)[i as int] == view2(g@));
            assert(gview(out@)[i as int] == grapheme_clusters(sp[i as int]));
            assert(line_text(gview(out@)[i as int]) == sp[i as int]);
            assert forall|k: int| 0 <= k < i + 1 implies gview(out@)[k] == grapheme_clusters(sp[k])
                && line_text(gview(out@)[k]) == sp[k] by {
                if k < i {
                    assert(gview(out@)[k] == gview(prev)[k]);
                }
            }
        }
        i += 1;
    }
    proof {
        assert(gview(out@) =~= lines_of(t@));
        assert(Seq::new(gview(out@).len(), |k: int| line_text(gview(out@)[k])) =~= sp);
    }
    out
}

/// Whether a cluster is blank (`g.trim().is_empty()`).
fn is_blank(g: &Vec<char>) -> (r: bool)
    ensures
        r == blank(g@),
{
    let t = trim_chars(g.as_slice());
    t.len() == 0
}

impl Selection {
    /// The ordered ends: (start, end).
    fn range(&self) -> (r: (Cursor, Cursor))
        ensures
            r == sel_range(*self),
    {
        if self.anchor.row < self.focus.row || (self.anchor.row == self.focus.row
            && self.anchor.col <= self.focus.col) {
            (self.anchor, self.focus)
        } else {
            (self.focus, self.anchor)
        }
    }
}

/// Deleting between ordered valid positions leaves a safe state with the cursor at the start.
/// Deleting a range keeps every cluster non-empty.
pub proof fn lemma_delete_keeps_clusters(l: Seq<Seq<Seq<char>>>, s: Cursor, e: Cursor)
    requires
        clusters_nonempty(l),
        valid_cursor(l, s),
        valid_cursor(l, e),
    ensures
        clusters_nonempty(delete_range_spec(l, s, e)),
{
    if s != e {
        let d = delete_range_spec(l, s, e);
        let mid = l[s.row as int].take(s.col as int) + l[e.row as int].skip(e.col as int);
        assert forall|r: int, k: int| 0 <= r < d.len() && 0 <= k < d[r].len() implies (#[trigger] d[r][k]).len() > 0 by {
            if r < s.row {
                assert(d[r] == l[r]);
            } else if r == s.row {
                assert(d[r] == mid);
                if k < s.col {
                    assert(mid[k] == l[s.row as int][k]);
                } else {
                    assert(mid[k] == l[e.row as int][e.col + k - s.col]);
                }
            } else {
                assert(d[r] == l[r - s.row + e.row]);
            }
        }
    }
}

/// Inserting parts whose clusters are non-empty keeps every cluster
/// non-empty.
pub proof fn lemma_insert_keeps_clusters(l: Seq<Seq<Seq<char>>>, c: Cursor, parts: Seq<Seq<Seq<char>>>)
    requires
        clusters_nonempty(l),
        clusters_nonempty(parts),
        valid_cursor(l, c),
    ensures
        clusters_nonempty(insert_parts_spec(l, c, parts)),
{
    let pre = l[c.row as int].take(c.col as int);
    let post = l[c.row as int].skip(c.col as int);
    let mid = Seq::new(parts.len(), |i: int| mid_line(pre, post, parts, i));
    let d = insert_parts_spec(l, c, parts);
    assert forall|r: int, k: int| 0 <= r < d.len() && 0 <= k < d[r].len() implies (#[trigger] d[r][k]).len() > 0 by {
        if r < c.row {
            assert(d[r] == l[r]);
        } else if r < c.row + parts.len() {
            let i = r - c.row;
            assert(d[r] == mid[i]);
            let a = if i == 0 { pre } else { Seq::<Seq<char>>::empty() };
            let b = if i == parts.len() - 1 { post } else { Seq::<Seq<char>>::empty() };
            assert(mid[i] == a + parts[i] + b);
            if k < a.len() {
                assert(pre[k] == l[c.row as int][k]);
            } else if k < a.len() + parts[i].len() {
                assert((a + parts[i] + b)[k] == parts[i][k - a.len()]);
            } else {
                assert((a + parts[i] + b)[k] == b[k - a.len() - parts[i].len()]);
                assert(post[k - a.len() - parts[i].len()] == l[c.row as int][c.col + k - a.len() - parts[i].len()]);
            }
        } else {
            assert(d[r] == l[r - parts.len() + 1]);
        }
    }
}

pub proof fn lemma_delete_ok(l: Seq<Seq<Seq<char>>>, s: Cursor, e: Cursor)
    requires
        l.len() >= 1,
        valid_cursor(l, s),
        valid_cursor(l, e),
        !(s.row == e.row && s.col > e.col),
    ensures
        delete_range_spec(l, s, e).len() >= 1,
        valid_cursor(delete_range_spec(l, s, e), s),
{
    if s != e {
        let d = delete_range_spec(l, s, e);
        assert(d[s.row as int] == l[s.row as int].take(s.col as int) + l[e.row as int].skip(
            e.col as int,
        ));
    }
}

/// Inserting text leaves a safe state with the cursor after the text.
pub proof fn lemma_insert_ok(l: Seq<Seq<Seq<char>>>, c: Cursor, parts: Seq<Seq<Seq<char>>>)
    requires
        l.len() >= 1,
        valid_cursor(l, c),
        parts.len() >= 1,
        c.row + parts.len() <= usize::MAX,
        c.col + parts[0].len() <= usize::MAX,
        parts[parts.len() - 1].len() <= usize::MAX,
    ensures
        insert_parts_spec(l, c, parts).len() >= 1,
        valid_cursor(insert_parts_spec(l, c, parts), insert_parts_cursor(c, parts)),
        insert_parts_spec(l, c, parts).len() == l.len() + parts.len() - 1,
{
    let r = insert_parts_spec(l, c, parts);
    let n = insert_parts_cursor(c, parts);
    assert(r[n.row as int].len() >= n.col);
}

impl TextEditor {
    /// An empty editor: one empty line, cursor at the start, nothing saved.
    pub fn new() -> (r: TextEditor)
        ensures
            r@ == (EditorView {
                lines: seq![seq![]],
                cursor: cursor_at(0, 0),
                selection: None,
                scroll_row: 0,
                undo: seq![],
                redo: seq![],
                clipboard: seq![],
            }),
            r@.wf(),
    {
        let mut lines: Vec<Vec<Vec<char>>> = Vec::new();
        lines.push(Vec::new());
        let r = TextEditor {
            lines,
            cursor: Cursor { row: 0, col: 0 },
            selection: None,
            scroll_row: 0,
            undo: Vec::new(),
            redo: Vec::new(),
            clipboard: Vec::new(),
        };
        assert(r@.lines =~~= seq![seq![]]);
        assert(r@.undo =~= seq![]);
        assert(r@.redo =~= seq![]);
        r
    }

    /// Replace the whole text; the cursor goes to the start and history is cleared.
    pub fn load_text(&mut self, text: &str)
        ensures
            final(self)@ == (EditorView {
                lines: lines_of(text@),
                cursor: cursor_at(0, 0),
                selection: None,
                scroll_row: 0,
                undo: seq![],
                redo: seq![],
                clipboard: old(self)@.clipboard,
            }),
            text_spec(final(self)@.lines) == text@,
            forall|i: int, j: int|
                0 <= i < final(self)@.lines.len() && 0 <= j < final(self)@.lines[i].len()
                    ==> (#[trigger] final(self)@.lines[i][j]).len() > 0,
            final(self)@.wf(),
    {
        let t = chars_of(text);
        let mut lines = text_lines(&t);
        if lines.len() == 0 {
            lines.push(Vec::new());
        }
        self.lines = lines;
        self.cursor = Cursor { row: 0, col: 0 };
        self.selection = None;
        self.undo.clear();
        self.redo.clear();
        self.scroll_row = 0;
        assert(self@.undo =~= seq![]);
        assert(self@.redo =~= seq![]);
    }

    /// The whole text, lines joined with `'\n'`.
    pub fn text(&self) -> (r: String)
        ensures
            r@ == text_spec(self@.lines),
    {
        let mut out: Vec<char> = Vec::new();
        let mut i: usize = 0;
        let ghost l = self@.lines;
        let ghost texts = Seq::new(l.len(), |k: int| line_text(l[k]));
        while i < self.lines.len()
            invariant
                l == gview(self.lines@),
                texts == Seq::new(l.len(), |k: int| line_text(l[k])),
                i <= l.len(),
                out@ == join_with(texts.take(i as int), '\n'),
            decreases self.lines.len() - i,
        {
            let ghost before = out@;
            if i > 0 {
                out.push('\n');
            }
            let line = &self.lines[i];
            let mut j: usize = 0;
            let ghost base = out@;
            while j < line.len()
                invariant
                    line@ == self.lines@[i as int]@,
                    j <= line@.len(),
                    out@ == base + view2(line@).take(j as int).flatten(),
                decreases line.len() - j,
            {
                let ghost pre = out@;
                extend_chars(&mut out, line[j].as_slice());
                proof {
                    assert(view2(line@).take(j + 1) =~= view2(line@).take(j as int).push(line@[j as int]@));
                    view2(line@).take(j as int).lemma_flatten_push(line@[j as int]@);
                }
                j += 1;
            }
            proof {
                assert(view2(line@).take(j as int) =~= view2(line@));
                assert(view2(line@) == l[i as int]);
                let tk = texts.take(i + 1);
                assert(tk.drop_last() =~= texts.take(i as int));
                assert(tk.last() == texts[i as int]);
                if i == 0 {
                    assert(tk.len() == 1);
                    assert(join_with(tk, '\n') == tk[0]);
                    assert(before.len() == 0);
                    assert(out@ =~= tk[0]);
                } else {
                    assert(out@ =~= before.push('\n') + texts[i as int]);
                }
            }
            i += 1;
        }
        assert(texts.take(i as int) =~= texts);
        string_of(out.as_slice())
    }

    /// True when the editor holds no text.
    pub fn is_empty(&self) -> (r: bool)
        ensures
            r == (self@.lines.len() == 1 && self@.lines[0].len() == 0),
    {
        self.lines.len() == 1 && self.lines[0].len() == 0
    }

    /// Empty the editor (as loading the empty text).
    pub fn clear(&mut self)
        ensures
            final(self)@.lines == seq![Seq::<Seq<char>>::empty()],
            final(self)@.cursor == cursor_at(0, 0),
            final(self)@.selection is None,
            final(self)@.scroll_row == 0,
            final(self)@.undo.len() == 0,
            final(self)@.redo.len() == 0,
            final(self)@.clipboard == old(self)@.clipboard,
            final(self)@.wf(),
    {
        self.load_text("");
        proof {
            reveal_strlit("");
            let l = self@.lines;
            assert(split_on(Seq::<char>::empty(), '\n').len() == 1);
            assert(l.len() == 1);
            assert(text_spec(l) == Seq::<char>::empty());
            assert(join_with(Seq::new(l.len(), |i: int| line_text(l[i])), '\n') == line_text(l[0]));
            if l[0].len() > 0 {
                l[0].lemma_flatten_one_element();
                assert(l[0] =~= seq![l[0][0]] + l[0].drop_first());
                lemma_flatten_concat(seq![l[0][0]], l[0].drop_first());
                assert(l[0][0].len() > 0);
            }
            assert(l[0] =~= Seq::<Seq<char>>::empty());
            assert(l =~~= seq![Seq::<Seq<char>>::empty()]);
        }
    }

    pub fn line_count(&self) -> (r: usize)
        ensures
            r == self@.lines.len(),
    {
        self.lines.len()
    }

    pub fn cursor(&self) -> (r: Cursor)
        ensures
            r == self@.cursor,
    {
        self.cursor
    }

    pub fn scroll_row(&self) -> (r: usize)
        ensures
            r == self@.scroll_row,
    {
        self.scroll_row
    }

    /// Place the cursor at `c`, clamped to the text: the row to the last line,
    /// the column to that line's length. Any selection is dropped.
    pub fn set_cursor(&mut self, c: Cursor)
        requires
            old(self)@.wf(),
        ensures
            final(self)@ == old(self)@.with(
                old(self)@.lines,
                cursor_at(
                    set_row(old(self)@.lines, c.row as int),
                    set_col(old(self)@.lines, c.row as int, c.col as int),
                ),
                None,
            ),
            final(self)@.wf(),
    {
        let last = self.lines.len() - 1;
        let row = if c.row < last { c.row } else { last };
        let n = self.lines[row].len();
        let col = if c.col < n { c.col } else { n };
        self.cursor = Cursor { row, col };
        self.selection = None;
    }
}

/// The row `set_cursor` lands on: `r` clamped to the last line.
pub open spec fn set_row(l: Seq<Seq<Seq<char>>>, r: int) -> int {
    if r < l.len() - 1 { r } else { l.len() - 1 }
}

/// The column `set_cursor` lands on: `c` clamped to the length of the row.
pub open spec fn set_col(l: Seq<Seq<Seq<char>>>, r: int, c: int) -> int {
    let n = l[set_row(l, r)].len() as int;
    if c < n { c } else { n }
}


/// Saving the current state for undo keeps the editor's invariant.
pub proof fn lemma_begin_edit_wf(v: EditorView)
    requires
        v.wf(),
    ensures
        v.begin_edit().wf(),
        v.begin_edit().snap() == v.snap(),
{
    let b = v.begin_edit();
    let u = v.undo.push(v.snap());
    assert forall|i: int| 0 <= i < b.undo.len() implies snap_ok(#[trigger] b.undo[i]) by {
        if u.len() > 100 {
            assert(b.undo[i] == u[i + 1]);
        } else {
            assert(b.undo[i] == u[i]);
        }
    }
}

impl TextEditor {
    /// The current state, copied.
    fn save(&self) -> (r: Edit)
        ensures
            r.snap() == self@.snap(),
    {
        let n = self.lines.len();
        let lines = copy_lines(&self.lines, 0, n);
        assert(gview(self.lines@).subrange(0, n as int) =~= gview(self.lines@));
        Edit { lines, cursor: self.cursor, selection: self.selection }
    }

    /// Save the current state on the undo stack (keeping at most 100) and drop the redo stack.
    fn begin_edit(&mut self)
        requires
            old(self)@.wf(),
        ensures
            final(self)@ == old(self)@.begin_edit(),
            final(self)@.wf(),
    {
        let e = self.save();
        let ghost v0 = self@;
        self.undo.push(e);
        if self.undo.len() > 100 {
            self.undo.remove(0);
        }
        self.redo.clear();
        proof {
            let u = v0.undo.push(v0.snap());
            if u.len() > 100 {
                assert(self@.undo =~= u.drop_first());
            } else {
                assert(self@.undo =~= u);
            }
            assert(self@.redo =~= seq![]);
            assert(self@ == v0.begin_edit());
            lemma_begin_edit_wf(v0);
        }
    }

    /// Delete the text between `start` and `end`; the cursor moves to `start`.
    fn delete_range(&mut self, start: Cursor, end: Cursor)
        requires
            old(self)@.lines.len() >= 1,
            valid_cursor(old(self)@.lines, start),
            valid_cursor(old(self)@.lines, end),
            !(start.row == end.row && start.col > end.col),
        ensures
            final(self)@ == old(self)@.delete_range(start, end),
            final(self)@.lines.len() >= 1,
            valid_cursor(final(self)@.lines, start),
            clusters_nonempty(old(self)@.lines) ==> clusters_nonempty(final(self)@.lines),
    {
        proof {
            lemma_delete_ok(self@.lines, start, end);
            if clusters_nonempty(self@.lines) {
                lemma_delete_keeps_clusters(self@.lines, start, end);
            }
        }
        if start == end {
            self.cursor = start;
            return;
        }
        let ghost l = self@.lines;
        let el = self.lines[end.row].len();
        let mut merged = copy_graphemes(&self.lines[start.row], 0, start.col);
        let mut tail = copy_graphemes(&self.lines[end.row], end.col, el);
        let ghost m0 = merged@;
        let ghost t0 = tail@;
        merged.append(&mut tail);
        let n = self.lines.len();
        let mut new_lines = copy_lines(&self.lines, 0, start.row);
        let mut rest = copy_lines(&self.lines, end.row + 1, n);
        let ghost a0 = new_lines@;
        let ghost r0 = rest@;
        new_lines.push(merged);
        let ghost b0 = new_lines@;
        new_lines.append(&mut rest);
        self.lines = new_lines;
        self.cursor = start;
        proof {
            assert(view2(merged@) =~= view2(m0) + view2(t0));
            assert(view2(merged@) == l[start.row as int].take(start.col as int) + l[end.row as int].skip(
                end.col as int,
            ));
            assert(b0 == a0.push(merged));
            assert(self.lines@ == b0 + r0);
            assert(gview(self.lines@) =~= gview(a0) + seq![view2(merged@)] + gview(r0));
            assert(gview(self.lines@) =~= delete_range_spec(l, start, end));
        }
    }
}


/// Append the text of graphemes `line[a..b]` to `out`.
fn push_flat(out: &mut Vec<char>, line: &Vec<Vec<char>>, a: usize, b: usize)
    requires
        a <= b <= line@.len(),
    ensures
        final(out)@ == old(out)@ + view2(line@).subrange(a as int, b as int).flatten(),
{
    let mut j = a;
    while j < b
        invariant
            a <= j <= b <= line@.len(),
            out@ == old(out)@ + view2(line@).subrange(a as int, j as int).flatten(),
        decreases b - j,
    {
        extend_chars(out, line[j].as_slice());
        proof {
            assert(view2(line@).subrange(a as int, j + 1) =~= view2(line@).subrange(a as int, j as int).push(
                line@[j as int]@,
            ));
            view2(line@).subrange(a as int, j as int).lemma_flatten_push(line@[j as int]@);
        }
        j += 1;
    }
}

impl TextEditor {
    /// Insert the lines `parts` at the cursor (the first joins the cursor's line
    /// before the cursor, the last joins it after); the cursor ends after them.
    fn insert_lines(&mut self, parts: Vec<Vec<Vec<char>>>)
        requires
            old(self)@.lines.len() >= 1,
            valid_cursor(old(self)@.lines, old(self)@.cursor),
            parts@.len() >= 1,
        ensures
            final(self)@ == old(self)@.insert_parts(gview(parts@)),
            final(self)@.lines.len() >= 1,
            valid_cursor(final(self)@.lines, final(self)@.cursor),
    {
        let ghost l = self@.lines;
        let ghost gp = gview(parts@);
        let row = self.cursor.row;
        let col = self.cursor.col;
        let len = self.lines[row].len();
        let pre = copy_graphemes(&self.lines[row], 0, col);
        let post = copy_graphemes(&self.lines[row], col, len);
        let k = parts.len() - 1;
        let nlines = self.lines.len();
        let ghost pre_s = l[row as int].take(col as int);
        let ghost post_s = l[row as int].skip(col as int);
        let mut mid: Vec<Vec<Vec<char>>> = Vec::new();
        let mut i: usize = 0;
        while i < parts.len()
            invariant
                i <= parts@.len(),
                k == parts@.len() - 1,
                gp == gview(parts@),
                view2(pre@) == pre_s,
                view2(post@) == post_s,
                gview(mid@) == Seq::new(i as nat, |j: int| mid_line(pre_s, post_s, gp, j)),
            decreases parts.len() - i,
        {
            let mut line: Vec<Vec<char>> = Vec::new();
            let ghost e = view2(line@);
            assert(e =~= Seq::<Seq<char>>::empty());
            if i == 0 {
                append_graphemes(&mut line, &pre);
            }
            let ghost a = view2(line@);
            assert(a =~= if i == 0 { pre_s } else { Seq::<Seq<char>>::empty() });
            append_graphemes(&mut line, &parts[i]);
            assert(gp[i as int] == view2(parts@[i as int]@));
            let ghost b = view2(line@);
            assert(b == a + gp[i as int]);
            if i == k {
                append_graphemes(&mut line, &post);
            }
            proof {
                if i == k {
                    assert(view2(line@) == b + post_s);
                } else {
                    assert(view2(line@) =~= b + Seq::<Seq<char>>::empty());
                }
                assert(view2(line@) =~= mid_line(pre_s, post_s, gp, i as int));
            }
            let ghost prev = mid@;
            mid.push(line);
            proof {
                assert(mid@ == prev.push(line));
                assert(gview(mid@) =~= gview(prev).push(view2(line@)));
                assert(gview(mid@) =~= Seq::new((i + 1) as nat, |j: int| mid_line(pre_s, post_s, gp, j)));
            }
            i += 1;
        }
        let first_len = mid[0].len();
        let last_len = parts[k].len();
        proof {
            assert(view2(mid@[0]@) == gview(mid@)[0]);
            assert(view2(mid@[0]@) == mid_line(pre_s, post_s, gp, 0));
            assert(mid_line(pre_s, post_s, gp, 0).len() >= col + gp[0].len());
        }
        let new_col = if k == 0 {
            col + parts[0].len()
        } else {
            last_len
        };
        let ghost gm = gview(mid@);
        assert(row < nlines);
        splice_lines(&mut self.lines, row, row + 1, mid);
        let n = self.lines.len();
        proof {
            assert(gview(self.lines@).len() == l.len() - 1 + gm.len());
        }
        self.cursor = Cursor { row: row + k, col: new_col };
        proof {
            assert(gm =~= Seq::new(gp.len(), |j: int| mid_line(pre_s, post_s, gp, j)));
            assert(gview(self.lines@) =~= insert_parts_spec(l, cursor_at(row as int, col as int), gp));
            assert(self.cursor == insert_parts_cursor(cursor_at(row as int, col as int), gp));
            assert(cursor_at(row as int, col as int) == old(self)@.cursor);
            lemma_insert_ok(l, old(self)@.cursor, gp);
        }
    }

    /// Insert text (possibly several lines) at the cursor.
    fn insert_text(&mut self, text: &[char])
        requires
            old(self)@.lines.len() >= 1,
            valid_cursor(old(self)@.lines, old(self)@.cursor),
        ensures
            final(self)@ == old(self)@.insert_parts(text_parts(text@)),
            final(self)@.lines.len() >= 1,
            valid_cursor(final(self)@.lines, final(self)@.cursor),
            clusters_nonempty(old(self)@.lines) ==> clusters_nonempty(final(self)@.lines),
    {
        let parts = text_lines(text);
        proof {
            let gp = gview(parts@);
            assert forall|i: int, j: int| 0 <= i < gp.len() && 0 <= j < gp[i].len() implies (#[trigger] gp[i][j]).len()
                > 0 by {
                assert(gp[i] == view2(parts@[i]@));
                assert(gp[i][j] == parts@[i]@[j]@);
            }
            if clusters_nonempty(self@.lines) {
                lemma_insert_keeps_clusters(self@.lines, self@.cursor, gp);
            }
        }
        self.insert_lines(parts);
    }

    /// Split the cursor's line at the cursor; the cursor moves to the new line's start.
    fn insert_newline_impl(&mut self)
        requires
            old(self)@.lines.len() >= 1,
            valid_cursor(old(self)@.lines, old(self)@.cursor),
        ensures
            final(self)@ == old(self)@.split_line(),
            final(self)@.lines.len() >= 1,
            valid_cursor(final(self)@.lines, final(self)@.cursor),
    {
        let ghost l = self@.lines;
        let row = self.cursor.row;
        let col = self.cursor.col;
        let len = self.lines[row].len();
        let left = copy_graphemes(&self.lines[row], 0, col);
        let right = copy_graphemes(&self.lines[row], col, len);
        let nlines = self.lines.len();
        let mut mid: Vec<Vec<Vec<char>>> = Vec::new();
        mid.push(left);
        mid.push(right);
        splice_lines(&mut self.lines, row, row + 1, mid);
        let n = self.lines.len();
        self.cursor = Cursor { row: row + 1, col: 0 };
        proof {
            assert(gview(mid@) =~= seq![l[row as int].take(col as int), l[row as int].skip(col as int)]);
            assert(gview(self.lines@) =~= split_line_spec(l, old(self)@.cursor));
            assert(gview(self.lines@)[row + 1] == l[row as int].skip(col as int));
        }
    }

    /// Delete the selected text, if any, and clear the selection.
    fn delete_selection(&mut self)
        requires
            snap_ok(old(self)@.snap()),
        ensures
            final(self)@ == old(self)@.take_selection(),
            snap_ok(final(self)@.snap()),
            final(self)@.selection is None,
    {
        match self.selection {
            Some(sel) => {
                self.selection = None;
                let (s, e) = sel.range();
                self.delete_range(s, e);
            },
            None => {},
        }
    }

    /// The cluster just before a position (across a line break).
    fn grapheme_before(&self, row: usize, col: usize) -> (r: Option<&Vec<char>>)
        ensures
            match r {
                Some(g) => before_spec(self@.lines, row as int, col as int) == Some(g@),
                None => before_spec(self@.lines, row as int, col as int) is None,
            },
    {
        if col > 0 {
            if row < self.lines.len() && col - 1 < self.lines[row].len() {
                Some(&self.lines[row][col - 1])
            } else {
                None
            }
        } else if row > 0 {
            if row - 1 < self.lines.len() && self.lines[row - 1].len() > 0 {
                let n = self.lines[row - 1].len();
                Some(&self.lines[row - 1][n - 1])
            } else {
                None
            }
        } else {
            None
        }
    }

    /// The cluster at a position.
    fn grapheme_at(&self, row: usize, col: usize) -> (r: Option<&Vec<char>>)
        ensures
            match r {
                Some(g) => at_spec(self@.lines, row as int, col as int) == Some(g@),
                None => at_spec(self@.lines, row as int, col as int) is None,
            },
    {
        if row < self.lines.len() && col < self.lines[row].len() {
            Some(&self.lines[row][col])
        } else {
            None
        }
    }

    /// One position to the left, across line breaks.
    fn step_left(&self, row: usize, col: usize) -> (r: Option<(usize, usize)>)
        requires
            row < self@.lines.len(),
        ensures
            col > 0 ==> r is Some && r.unwrap().0 == row && r.unwrap().1 == col - 1,
            col == 0 && row > 0 ==> r is Some && r.unwrap().0 == row - 1 && r.unwrap().1
                == self@.lines[row - 1].len(),
            col == 0 && row == 0 ==> r is None,
    {
        if col > 0 {
            Some((row, col - 1))
        } else if row > 0 {
            Some((row - 1, self.lines[row - 1].len()))
        } else {
            None
        }
    }

    /// One position to the right, across line breaks.
    fn step_right(&self, row: usize, col: usize) -> (r: Option<(usize, usize)>)
        requires
            row < self@.lines.len(),
            col <= self@.lines[row as int].len(),
        ensures
            col < self@.lines[row as int].len() ==> r is Some && r.unwrap().0 == row && r.unwrap().1
                == col + 1,
            col == self@.lines[row as int].len() && row + 1 < self@.lines.len() ==> r is Some
                && r.unwrap().0 == row + 1 && r.unwrap().1 == 0,
            col == self@.lines[row as int].len() && row + 1 >= self@.lines.len() ==> r is None,
    {
        let n = self.lines.len();
        if col < self.lines[row].len() {
            Some((row, col + 1))
        } else if row + 1 < n {
            Some((row + 1, 0))
        } else {
            None
        }
    }

    fn blank_before(&self, row: usize, col: usize, ws: bool) -> (r: bool)
        ensures
            r == (before_spec(self@.lines, row as int, col as int) matches Some(g) && blank(g) == ws),
    {
        match self.grapheme_before(row, col) {
            Some(g) => is_blank(g) == ws,
            None => false,
        }
    }

    fn blank_at(&self, row: usize, col: usize, ws: bool) -> (r: bool)
        ensures
            r == (at_spec(self@.lines, row as int, col as int) matches Some(g) && blank(g) == ws),
    {
        match self.grapheme_at(row, col) {
            Some(g) => is_blank(g) == ws,
            None => false,
        }
    }

    /// Move left from a position while the cluster before it is blank (`ws`) or not.
    fn skip_left_from(&self, row: usize, col: usize, ws: bool) -> (r: (usize, usize))
        requires
            valid_cursor(self@.lines, cursor_at(row as int, col as int)),
        ensures
            (r.0 as nat, r.1 as nat) == skip_left(self@.lines, row as nat, col as nat, ws),
            valid_cursor(self@.lines, cursor_at(r.0 as int, r.1 as int)),
            cursor_le(cursor_at(r.0 as int, r.1 as int), cursor_at(row as int, col as int)),
    {
        let ghost l = self@.lines;
        let mut row = row;
        let mut col = col;
        let ghost r0 = row;
        let ghost c0 = col;
        while self.blank_before(row, col, ws)
            invariant
                l == self@.lines,
                valid_cursor(l, cursor_at(row as int, col as int)),
                skip_left(l, r0 as nat, c0 as nat, ws) == skip_left(l, row as nat, col as nat, ws),
                cursor_le(cursor_at(row as int, col as int), cursor_at(r0 as int, c0 as int)),
            decreases row, col,
        {
            let ghost (pr, pc) = (row, col);
            let (r, c) = self.step_left(row, col).unwrap();
            row = r;
            col = c;
            proof {
                assert(before_spec(l, pr as int, pc as int) is Some);
                assert(skip_left(l, pr as nat, pc as nat, ws) == skip_left(l, row as nat, col as nat, ws));
            }
        }
        (row, col)
    }

    /// Move right from a position while the cluster at it is blank (`ws`) or not.
    fn skip_right_from(&self, row: usize, col: usize, ws: bool) -> (r: (usize, usize))
        requires
            valid_cursor(self@.lines, cursor_at(row as int, col as int)),
        ensures
            (r.0 as nat, r.1 as nat) == skip_right(self@.lines, row as nat, col as nat, ws),
            valid_cursor(self@.lines, cursor_at(r.0 as int, r.1 as int)),
    {
        let ghost l = self@.lines;
        let mut row = row;
        let mut col = col;
        let ghost r0 = row;
        let ghost c0 = col;
        while self.blank_at(row, col, ws)
            invariant
                l == self@.lines,
                valid_cursor(l, cursor_at(row as int, col as int)),
                skip_right(l, r0 as nat, c0 as nat, ws) == skip_right(l, row as nat, col as nat, ws),
            decreases l.len() - row, l[row as int].len() - col,
        {
            let ghost (pr, pc) = (row, col);
            let (r, c) = self.step_right(row, col).unwrap();
            row = r;
            col = c;
            proof {
                assert(at_spec(l, pr as int, pc as int) is Some);
                assert(pc < l[pr as int].len());
                assert(skip_right(l, pr as nat, pc as nat, ws) == skip_right(l, row as nat, col as nat, ws));
            }
        }
        (row, col)
    }

    /// Start of the word before the cursor.
    fn word_left_pos(&self) -> (r: Cursor)
        requires
            snap_ok(self@.snap()),
        ensures
            r == word_left_spec(self@.lines, self@.cursor),
            valid_cursor(self@.lines, r),
            cursor_le(r, self@.cursor),
    {
        let mut row = self.cursor.row;
        let mut col = self.cursor.col;
        if col == 0 {
            if row == 0 {
                return Cursor { row: 0, col: 0 };
            }
            row -= 1;
            col = self.lines[row].len();
        }
        let (r1, c1) = self.skip_left_from(row, col, true);
        let (r2, c2) = self.skip_left_from(r1, c1, false);
        Cursor { row: r2, col: c2 }
    }

    /// Start of the next word after the cursor.
    fn word_right_pos(&self) -> (r: Cursor)
        requires
            snap_ok(self@.snap()),
        ensures
            r == word_right_spec(self@.lines, self@.cursor),
            valid_cursor(self@.lines, r),
    {
        let mut row = self.cursor.row;
        let mut col = self.cursor.col;
        let n = self.lines.len();
        if col == self.lines[row].len() {
            if row + 1 >= n {
                return Cursor { row, col: self.lines[row].len() };
            }
            row += 1;
            col = 0;
        }
        let (r1, c1) = self.skip_right_from(row, col, false);
        let (r2, c2) = self.skip_right_from(r1, c1, true);
        Cursor { row: r2, col: c2 }
    }
}


impl TextEditor {
    /// Copy the line at `row` without the cluster at `col`.
    fn line_without(&self, row: usize, col: usize) -> (r: Vec<Vec<char>>)
        requires
            row < self@.lines.len(),
            col < self@.lines[row as int].len(),
        ensures
            view2(r@) == self@.lines[row as int].remove(col as int),
    {
        let n = self.lines[row].len();
        let mut a = copy_graphemes(&self.lines[row], 0, col);
        let mut b = copy_graphemes(&self.lines[row], col + 1, n);
        let ghost a0 = a@;
        a.append(&mut b);
        assert(view2(a@) =~= self@.lines[row as int].remove(col as int));
        a
    }

    /// Copy of lines `r` and `r + 1` joined.
    fn joined_lines(&self, r: usize) -> (out: Vec<Vec<char>>)
        requires
            r + 1 < self@.lines.len(),
        ensures
            view2(out@) == self@.lines[r as int] + self@.lines[r + 1],
    {
        let n = self.lines.len();
        let n0 = self.lines[r].len();
        let n1 = self.lines[r + 1].len();
        let mut a = copy_graphemes(&self.lines[r], 0, n0);
        let mut b = copy_graphemes(&self.lines[r + 1], 0, n1);
        proof {
            assert(view2(a@) =~= self@.lines[r as int]);
            assert(view2(b@) =~= self@.lines[r + 1]);
        }
        let ghost a0 = a@;
        let ghost b0 = b@;
        a.append(&mut b);
        assert(view2(a@) =~= view2(a0) + view2(b0));
        assert(view2(a@) =~= self@.lines[r as int] + self@.lines[r + 1]);
        a
    }

    /// Replace line `row` by `line`.
    fn set_line(&mut self, row: usize, line: Vec<Vec<char>>)
        requires
            row < old(self)@.lines.len(),
        ensures
            final(self)@ == old(self)@.with(
                old(self)@.lines.update(row as int, view2(line@)),
                old(self)@.cursor,
                old(self)@.selection,
            ),
    {
        let ghost l = self@.lines;
        self.lines.set(row, line);
        assert(gview(self.lines@) =~= l.update(row as int, view2(line@)));
    }

    /// Replace lines `r` and `r + 1` by `line`.
    fn merge_into(&mut self, r: usize, line: Vec<Vec<char>>)
        requires
            r + 1 < old(self)@.lines.len(),
        ensures
            final(self)@ == old(self)@.with(
                old(self)@.lines.take(r as int) + seq![view2(line@)] + old(self)@.lines.skip(r + 2),
                old(self)@.cursor,
                old(self)@.selection,
            ),
    {
        let ghost l = self@.lines;
        let n = self.lines.len();
        let mut mid: Vec<Vec<Vec<char>>> = Vec::new();
        mid.push(line);
        assert(gview(mid@) =~= seq![view2(line@)]);
        splice_lines(&mut self.lines, r, r + 2, mid);
    }

    fn insert_char(&mut self, c: char)
        requires
            old(self)@.wf(),
        ensures
            final(self)@ == old(self)@.insert_char(c),
            final(self)@.wf(),
    {
        self.begin_edit();
        self.delete_selection();
        if c == '\n' {
            self.insert_newline_impl();
        } else {
            let mut g: Vec<char> = Vec::new();
            g.push(c);
            let mut l1: Vec<Vec<char>> = Vec::new();
            l1.push(g);
            let mut parts: Vec<Vec<Vec<char>>> = Vec::new();
            parts.push(l1);
            assert(gview(parts@) =~~= seq![seq![seq![c]]]);
            self.insert_lines(parts);
        }
    }

    fn insert_newline(&mut self)
        requires
            old(self)@.wf(),
        ensures
            final(self)@ == old(self)@.begin_edit().take_selection().split_line(),
            final(self)@.wf(),
    {
        self.begin_edit();
        self.delete_selection();
        self.insert_newline_impl();
    }

    fn delete_backward(&mut self)
        requires
            old(self)@.wf(),
        ensures
            final(self)@ == old(self)@.delete_backward(),
            final(self)@.wf(),
    {
        match self.selection {
            Some(sel) => {
                self.begin_edit();
                let (s, e) = sel.range();
                self.selection = None;
                self.delete_range(s, e);
                return;
            },
            None => {},
        }
        self.begin_edit();
        let row = self.cursor.row;
        let col = self.cursor.col;
        if col > 0 {
            let line = self.line_without(row, col - 1);
            self.set_line(row, line);
            self.cursor = Cursor { row, col: col - 1 };
        } else if row > 0 {
            let prev_len = self.lines[row - 1].len();
            let merged = self.joined_lines(row - 1);
            self.merge_into(row - 1, merged);
            self.cursor = Cursor { row: row - 1, col: prev_len };
            assert(self@.lines[row - 1].len() >= prev_len);
        }
    }

    fn delete_forward(&mut self)
        requires
            old(self)@.wf(),
        ensures
            final(self)@ == old(self)@.delete_forward(),
            final(self)@.wf(),
    {
        match self.selection {
            Some(sel) => {
                self.begin_edit();
                let (s, e) = sel.range();
                self.selection = None;
                self.delete_range(s, e);
                return;
            },
            None => {},
        }
        self.begin_edit();
        let row = self.cursor.row;
        let col = self.cursor.col;
        let n = self.lines.len();
        if col < self.lines[row].len() {
            let line = self.line_without(row, col);
            self.set_line(row, line);
        } else if row + 1 < n {
            let merged = self.joined_lines(row);
            self.merge_into(row, merged);
        }
    }

    fn delete_word_backward(&mut self)
        requires
            old(self)@.wf(),
        ensures
            final(self)@ == old(self)@.delete_word_backward(),
            final(self)@.wf(),
    {
        if self.selection.is_some() {
            self.delete_backward();
            return;
        }
        self.begin_edit();
        let start = self.word_left_pos();
        let end = self.cursor;
        self.delete_range(start, end);
    }

    fn delete_to_line_start(&mut self)
        requires
            old(self)@.wf(),
        ensures
            final(self)@ == old(self)@.delete_to_line_start(),
            final(self)@.wf(),
    {
        if self.selection.is_some() {
            self.delete_backward();
            return;
        }
        self.begin_edit();
        let start = Cursor { row: self.cursor.row, col: 0 };
        let end = self.cursor;
        self.delete_range(start, end);
    }

    /// Record the selection after moving from `prev` to the cursor.
    fn update_selection(&mut self, prev: Cursor, extend: bool)
        ensures
            final(self)@ == old(self)@.with(
                old(self)@.lines,
                old(self)@.cursor,
                moved_sel(old(self)@.selection, prev, old(self)@.cursor, extend),
            ),
    {
        if extend {
            self.selection = Some(
                match self.selection {
                    Some(sel) => Selection { anchor: sel.anchor, focus: self.cursor },
                    None => Selection { anchor: prev, focus: self.cursor },
                },
            );
        } else {
            self.selection = None;
        }
    }

    /// Collapse a selection to its start when not extending; true when done.
    fn collapse(&mut self, extend: bool) -> (done: bool)
        requires
            old(self)@.wf(),
        ensures
            done == (!extend && old(self)@.selection is Some),
            done ==> final(self)@ == old(self)@.with(old(self)@.lines, old(self)@.sel_start(), None),
            !done ==> final(self)@ == old(self)@,
            final(self)@.wf(),
    {
        if !extend && self.selection.is_some() {
            let (s, _) = self.selection.unwrap().range();
            self.selection = None;
            self.cursor = s;
            return true;
        }
        false
    }

    fn move_h(&mut self, delta: isize, extend: bool)
        requires
            old(self)@.wf(),
        ensures
            final(self)@ == old(self)@.move_h(delta < 0, extend),
            final(self)@.wf(),
    {
        if self.collapse(extend) {
            return;
        }
        let prev = self.cursor;
        let n = self.lines.len();
        if delta < 0 {
            if self.cursor.col > 0 {
                self.cursor.col = self.cursor.col - 1;
            } else if self.cursor.row > 0 {
                let r = self.cursor.row - 1;
                self.cursor = Cursor { row: r, col: self.lines[r].len() };
            }
        } else {
            let len = self.lines[self.cursor.row].len();
            if self.cursor.col < len {
                self.cursor.col = self.cursor.col + 1;
            } else if self.cursor.row + 1 < n {
                self.cursor = Cursor { row: self.cursor.row + 1, col: 0 };
            }
        }
        self.update_selection(prev, extend);
    }

    fn move_v(&mut self, delta: isize, extend: bool)
        requires
            old(self)@.wf(),
        ensures
            final(self)@ == old(self)@.move_v(delta < 0, extend),
            final(self)@.wf(),
    {
        if self.collapse(extend) {
            return;
        }
        let prev = self.cursor;
        let col = self.cursor.col;
        let n = self.lines.len();
        if delta < 0 {
            if self.cursor.row == 0 {
                self.cursor.col = 0;
            } else {
                let r = self.cursor.row - 1;
                let len = self.lines[r].len();
                self.cursor = Cursor { row: r, col: if col <= len { col } else { len } };
            }
        } else if self.cursor.row + 1 >= n {
            self.cursor.col = self.lines[self.cursor.row].len();
        } else {
            let r = self.cursor.row + 1;
            let len = self.lines[r].len();
            self.cursor = Cursor { row: r, col: if col <= len { col } else { len } };
        }
        self.update_selection(prev, extend);
    }

    fn move_word(&mut self, dir: isize, extend: bool)
        requires
            old(self)@.wf(),
        ensures
            final(self)@ == old(self)@.move_word(dir < 0, extend),
            final(self)@.wf(),
    {
        if self.collapse(extend) {
            return;
        }
        let prev = self.cursor;
        self.cursor = if dir < 0 {
            self.word_left_pos()
        } else {
            self.word_right_pos()
        };
        self.update_selection(prev, extend);
    }

    fn move_line_start(&mut self, extend: bool)
        requires
            old(self)@.wf(),
        ensures
            final(self)@ == old(self)@.move_line_edge(true, extend),
            final(self)@.wf(),
    {
        if self.collapse(extend) {
            return;
        }
        let prev = self.cursor;
        self.cursor.col = 0;
        self.update_selection(prev, extend);
    }

    fn move_line_end(&mut self, extend: bool)
        requires
            old(self)@.wf(),
        ensures
            final(self)@ == old(self)@.move_line_edge(false, extend),
            final(self)@.wf(),
    {
        if self.collapse(extend) {
            return;
        }
        let prev = self.cursor;
        self.cursor.col = self.lines[self.cursor.row].len();
        self.update_selection(prev, extend);
    }

    fn move_to_doc(&mut self, start: bool)
        requires
            old(self)@.wf(),
        ensures
            final(self)@ == old(self)@.move_to_doc(start),
            final(self)@.wf(),
    {
        let prev = self.cursor;
        let last = self.lines.len() - 1;
        self.cursor = if start {
            Cursor { row: 0, col: 0 }
        } else {
            Cursor { row: last, col: self.lines[last].len() }
        };
        self.update_selection(prev, true);
    }

    fn undo(&mut self)
        requires
            old(self)@.wf(),
        ensures
            final(self)@ == old(self)@.undo_step(),
            final(self)@.wf(),
    {
        let ghost v0 = self@;
        if let Some(prev) = self.undo.pop() {
            let cur = self.save();
            self.redo.push(cur);
            self.lines = prev.lines;
            self.cursor = prev.cursor;
            self.selection = prev.selection;
            proof {
                assert(self@.undo =~= v0.undo.drop_last());
                assert(self@.redo =~= v0.redo.push(v0.snap()));
                assert(prev.snap() == v0.undo.last());
                assert(self@ == v0.undo_step());
                assert forall|i: int| 0 <= i < self@.undo.len() implies snap_ok(#[trigger] self@.undo[i]) by {
                    assert(self@.undo[i] == v0.undo[i]);
                }
                assert forall|i: int| 0 <= i < self@.redo.len() implies snap_ok(#[trigger] self@.redo[i]) by {
                    if i < v0.redo.len() {
                        assert(self@.redo[i] == v0.redo[i]);
                    }
                }
                assert(snap_ok(v0.undo[v0.undo.len() - 1]));
            }
        }
    }

    fn redo(&mut self)
        requires
            old(self)@.wf(),
        ensures
            final(self)@ == old(self)@.redo_step(),
            final(self)@.wf(),
    {
        let ghost v0 = self@;
        if let Some(next) = self.redo.pop() {
            let cur = self.save();
            self.undo.push(cur);
            self.lines = next.lines;
            self.cursor = next.cursor;
            self.selection = next.selection;
            proof {
                assert(self@.redo =~= v0.redo.drop_last());
                assert(self@.undo =~= v0.undo.push(v0.snap()));
                assert(next.snap() == v0.redo.last());
                assert(self@ == v0.redo_step());
                assert forall|i: int| 0 <= i < self@.redo.len() implies snap_ok(#[trigger] self@.redo[i]) by {
                    assert(self@.redo[i] == v0.redo[i]);
                }
                assert forall|i: int| 0 <= i < self@.undo.len() implies snap_ok(#[trigger] self@.undo[i]) by {
                    if i < v0.undo.len() {
                        assert(self@.undo[i] == v0.undo[i]);
                    }
                }
                assert(snap_ok(v0.redo[v0.redo.len() - 1]));
            }
        }
    }
}


/// The selected segment of row `r` as the editor copies it.
pub open spec fn row_segment(l: Seq<Seq<Seq<char>>>, s: Cursor, e: Cursor, r: int) -> Seq<char> {
    let line = l[r];
    let a = if r == s.row {
        s.col as int
    } else {
        0
    };
    let b = if r == e.row {
        e.col as int
    } else {
        line.len() as int
    };
    let a2 = if a < line.len() {
        a
    } else {
        line.len() as int
    };
    let b2 = if b < line.len() {
        b
    } else {
        line.len() as int
    };
    line.subrange(
        a2,
        if b2 < a2 {
            a2
        } else {
            b2
        },
    ).flatten()
}

pub proof fn lemma_selected_rows(l: Seq<Seq<Seq<char>>>, s: Cursor, e: Cursor)
    ensures
        selected_spec(l, s, e) == join_with(
            Seq::new((e.row - s.row + 1) as nat, |k: int| row_segment(l, s, e, s.row + k)),
            '\n',
        ),
{
    assert(Seq::new((e.row - s.row + 1) as nat, |k: int| row_segment(l, s, e, s.row + k)) =~= Seq::new(
        (e.row - s.row + 1) as nat,
        |k: int|
            {
                let r = s.row + k;
                let line = l[r];
                let a = if r == s.row {
                    s.col as int
                } else {
                    0
                };
                let b = if r == e.row {
                    e.col as int
                } else {
                    line.len() as int
                };
                let a2 = if a < line.len() {
                    a
                } else {
                    line.len() as int
                };
                let b2 = if b < line.len() {
                    b
                } else {
                    line.len() as int
                };
                line.subrange(
                    a2,
                    if b2 < a2 {
                        a2
                    } else {
                        b2
                    },
                ).flatten()
            },
    ));
}

impl TextEditor {
    /// The selected text as characters, if any.
    fn selected_chars(&self) -> (r: Option<Vec<char>>)
        requires
            snap_ok(self@.snap()),
        ensures
            match r {
                Some(t) => self@.selected() == Some(t@),
                None => self@.selected() is None,
            },
    {
        let sel = match self.selection {
            Some(sel) => sel,
            None => return None,
        };
        let (start, end) = sel.range();
        let ghost l = self@.lines;
        let ghost rows = Seq::new(
            (end.row - start.row + 1) as nat,
            |k: int| row_segment(l, start, end, start.row + k),
        );
        let mut out: Vec<char> = Vec::new();
        let mut r = start.row;
        let n = self.lines.len();
        while r <= end.row
            invariant
                l == self@.lines,
                n == l.len(),
                valid_cursor(l, start),
                valid_cursor(l, end),
                cursor_le(start, end),
                start.row <= r <= end.row + 1,
                rows == Seq::new(
                    (end.row - start.row + 1) as nat,
                    |k: int| row_segment(l, start, end, start.row + k),
                ),
                out@ == join_with(rows.take(r - start.row), '\n'),
            decreases end.row + 1 - r,
        {
            let line = &self.lines[r];
            let len = line.len();
            let a = if r == start.row {
                start.col
            } else {
                0
            };
            let b = if r == end.row {
                end.col
            } else {
                len
            };
            let a2 = if a < len {
                a
            } else {
                len
            };
            let b2 = if b < len {
                b
            } else {
                len
            };
            let hi = if b2 < a2 {
                a2
            } else {
                b2
            };
            let ghost before = out@;
            if r > start.row {
                out.push('\n');
            }
            push_flat(&mut out, line, a2, hi);
            proof {
                let k = r - start.row;
                assert(view2(line@) == l[r as int]);
                assert(rows[k] == row_segment(l, start, end, r as int));
                let tk = rows.take(k + 1);
                assert(tk.drop_last() =~= rows.take(k));
                assert(tk.last() == rows[k]);
                if k == 0 {
                    assert(before =~= Seq::<char>::empty());
                    assert(out@ =~= tk[0]);
                } else {
                    assert(out@ =~= before.push('\n') + rows[k]);
                }
            }
            r += 1;
        }
        proof {
            assert(rows.take(r - start.row) =~= rows);
            lemma_selected_rows(l, start, end);
        }
        Some(out)
    }

    /// The selected text, rows joined with `'\n'`.
    pub fn selected_text(&self) -> (r: Option<String>)
        requires
            self@.wf(),
        ensures
            match r {
                Some(t) => self@.selected() == Some(t@),
                None => self@.selected() is None,
            },
    {
        match self.selected_chars() {
            Some(t) => Some(string_of(t.as_slice())),
            None => None,
        }
    }

    /// The selected column range `(start, end)` on `row`, in clusters, if any.
    pub fn selection_for_row(&self, row: usize) -> (r: Option<(usize, usize)>)
        requires
            self@.wf(),
        ensures
            match self@.selection {
                None => r is None,
                Some(sel) => {
                    let (s, e) = sel_range(sel);
                    if row < s.row || row > e.row {
                        r is None
                    } else {
                        r == Some(
                            (
                                if row == s.row {
                                    s.col
                                } else {
                                    0usize
                                },
                                if row == e.row {
                                    e.col
                                } else {
                                    self@.lines[row as int].len() as usize
                                },
                            ),
                        )
                    }
                },
            },
    {
        let sel = match self.selection {
            Some(sel) => sel,
            None => return None,
        };
        let (start, end) = sel.range();
        if row < start.row || row > end.row {
            return None;
        }
        let s = if row == start.row {
            start.col
        } else {
            0
        };
        let e = if row == end.row {
            end.col
        } else {
            self.lines[row].len()
        };
        Some((s, e))
    }

    pub fn clipboard_is_empty(&self) -> (r: bool)
        ensures
            r == (self@.clipboard.len() == 0),
    {
        self.clipboard.len() == 0
    }

    fn insert_plain_chars(&mut self, text: &[char])
        requires
            old(self)@.wf(),
        ensures
            final(self)@ == old(self)@.insert_plain(text@),
            final(self)@.wf(),
    {
        self.begin_edit();
        self.delete_selection();
        self.insert_text(text);
    }

    /// Insert text (may contain newlines) at the cursor as a single edit step,
    /// replacing the selection. Used for terminal paste.
    pub fn insert_plain(&mut self, text: &str)
        requires
            old(self)@.wf(),
        ensures
            final(self)@ == old(self)@.insert_plain(text@),
            final(self)@.wf(),
    {
        let t = chars_of(text);
        self.insert_plain_chars(&t);
    }

    /// Replace the cursor's line with `replacement` (which may contain
    /// newlines) as a single undo step. The selection is left as it was.
    pub fn replace_current_line(&mut self, replacement: &str)
        requires
            old(self)@.wf(),
        ensures
            final(self)@ == old(self)@.begin_edit().delete_range(
                cursor_at(old(self)@.cursor.row as int, 0),
                cursor_at(
                    old(self)@.cursor.row as int,
                    old(self)@.lines[old(self)@.cursor.row as int].len() as int,
                ),
            ).insert_parts(text_parts(replacement@)),
            final(self)@.lines.len() >= 1,
            valid_cursor(final(self)@.lines, final(self)@.cursor),
            old(self)@.selection is None ==> final(self)@.wf(),
    {
        self.begin_edit();
        let row = self.cursor.row;
        let len = self.lines[row].len();
        self.delete_range(Cursor { row, col: 0 }, Cursor { row, col: len });
        let t = chars_of(replacement);
        self.insert_text(&t);
    }

    /// Keep the cursor row within a window of `max_visible` rows (at least one).
    pub fn scroll_to_cursor(&mut self, max_visible: usize)
        requires
            old(self)@.scroll_row + (if max_visible == 0 {
                1
            } else {
                max_visible as int
            }) <= usize::MAX,
        ensures
            ({
                let m = if max_visible == 0 {
                    1
                } else {
                    max_visible as int
                };
                let c = old(self)@.cursor.row as int;
                let s = old(self)@.scroll_row as int;
                final(self)@ == EditorView {
                    scroll_row: (if c < s {
                        c
                    } else if c >= s + m {
                        c + 1 - m
                    } else {
                        s
                    }) as nat,
                    ..old(self)@
                }
            }),
    {
        let max_visible = if max_visible > 1 {
            max_visible
        } else {
            1
        };
        if self.cursor.row < self.scroll_row {
            self.scroll_row = self.cursor.row;
        } else if self.cursor.row >= self.scroll_row + max_visible {
            self.scroll_row = self.cursor.row - max_visible + 1;
        }
    }

    /// The clusters of a line, for rendering (empty when there is no such line).
    pub fn line_graphemes(&self, row: usize) -> (r: Vec<String>)
        ensures
            row < self@.lines.len() ==> r@.len() == self@.lines[row as int].len() && forall|i: int|
                0 <= i < r@.len() ==> (#[trigger] r@[i])@ == self@.lines[row as int][i],
            row >= self@.lines.len() ==> r@.len() == 0,
    {
        let mut out: Vec<String> = Vec::new();
        if row >= self.lines.len() {
            return out;
        }
        let line = &self.lines[row];
        let mut i: usize = 0;
        while i < line.len()
            invariant
                line@ == self.lines@[row as int]@,
                i <= line@.len(),
                out@.len() == i,
                forall|k: int| 0 <= k < i ==> (#[trigger] out@[k])@ == line@[k]@,
            decreases line.len() - i,
        {
            out.push(string_of(line[i].as_slice()));
            i += 1;
        }
        out
    }

    /// Apply one editor action.
    pub fn apply(&mut self, action: EditorAction)
        requires
            old(self)@.wf(),
        ensures
            final(self)@ == old(self)@.apply(action),
            final(self)@.wf(),
    {
        match action {
            EditorAction::MoveLeft => self.move_h(-1, false),
            EditorAction::MoveRight => self.move_h(1, false),
            EditorAction::MoveUp => self.move_v(-1, false),
            EditorAction::MoveDown => self.move_v(1, false),
            EditorAction::MoveWordLeft => self.move_word(-1, false),
            EditorAction::MoveWordRight => self.move_word(1, false),
            EditorAction::MoveToLineStart => self.move_line_start(false),
            EditorAction::MoveToLineEnd => self.move_line_end(false),
            EditorAction::MoveToDocStart => {
                self.begin_edit();
                self.cursor = Cursor { row: 0, col: 0 };
                self.selection = None;
            },
            EditorAction::MoveToDocEnd => {
                self.begin_edit();
                let last = self.lines.len() - 1;
                self.cursor = Cursor { row: last, col: self.lines[last].len() };
                self.selection = None;
            },
            EditorAction::SelectLeft => self.move_h(-1, true),
            EditorAction::SelectRight => self.move_h(1, true),
            EditorAction::SelectUp => self.move_v(-1, true),
            EditorAction::SelectDown => self.move_v(1, true),
            EditorAction::SelectWordLeft => self.move_word(-1, true),
            EditorAction::SelectWordRight => self.move_word(1, true),
            EditorAction::SelectToLineStart => self.move_line_start(true),
            EditorAction::SelectToLineEnd => self.move_line_end(true),
            EditorAction::SelectToDocStart => self.move_to_doc(true),
            EditorAction::SelectToDocEnd => self.move_to_doc(false),
            EditorAction::SelectAll => {
                self.begin_edit();
                let last = self.lines.len() - 1;
                let focus = Cursor { row: last, col: self.lines[last].len() };
                self.selection = Some(Selection { anchor: Cursor { row: 0, col: 0 }, focus });
                self.cursor = focus;
            },
            EditorAction::DeleteBackward => self.delete_backward(),
            EditorAction::DeleteForward => self.delete_forward(),
            EditorAction::DeleteWordBackward => self.delete_word_backward(),
            EditorAction::DeleteToLineStart => self.delete_to_line_start(),
            EditorAction::InsertChar(c) => self.insert_char(c),
            EditorAction::InsertNewline => self.insert_newline(),
            EditorAction::Copy => {
                if let Some(text) = self.selected_chars() {
                    self.clipboard = text;
                }
            },
            EditorAction::Cut => {
                if self.selection.is_some() {
                    self.begin_edit();
                    if let Some(text) = self.selected_chars() {
                        self.clipboard = text;
                    }
                    let (s, e) = self.selection.unwrap().range();
                    self.selection = None;
                    self.delete_range(s, e);
                }
            },
            EditorAction::PasteClipboard => {
                let n = self.clipboard.len();
                let text = slice_chars(self.clipboard.as_slice(), 0, n);
                assert(text@ =~= self@.clipboard);
                if text.len() > 0 {
                    self.insert_plain_chars(&text);
                }
            },
            EditorAction::Paste(text) => self.insert_plain(text.as_str()),
            EditorAction::Undo => self.undo(),
            EditorAction::Redo => self.redo(),
        }
    }
}

impl Default for TextEditor {
    fn default() -> (r: TextEditor)
        ensures
            r@ == (EditorView {
                lines: seq![seq![]],
                cursor: cursor_at(0, 0),
                selection: None,
                scroll_row: 0,
                undo: seq![],
                redo: seq![],
                clipboard: seq![],
            }),
            r@.wf(),
    {
        Self::new()
    }
}


// ---------------------------------------------------------------------------
// Byte offsets and display width
// ---------------------------------------------------------------------------
/// UTF-8 byte length of a line's text.
pub open spec fn line_bytes(line: Seq<Seq<char>>) -> nat {
    byte_len(line_text(line))
}

/// Bytes taken by rows `0..r`, each followed by its newline.
pub open spec fn rows_bytes(l: Seq<Seq<Seq<char>>>, r: nat) -> nat
    decreases r,
{
    if r == 0 {
        0
    } else {
        rows_bytes(l, (r - 1) as nat) + line_bytes(l[r - 1]) + 1
    }
}

/// Byte offset of a position in the editor's text.
pub open spec fn byte_offset_spec(l: Seq<Seq<Seq<char>>>, c: Cursor) -> nat {
    rows_bytes(l, c.row as nat) + byte_len(l[c.row as int].take(c.col as int).flatten())
}

/// How many leading clusters fit within `budget` bytes.
pub open spec fn fit_count(gs: Seq<Seq<char>>, budget: nat) -> nat
    decreases gs.len(),
{
    if gs.len() == 0 {
        0
    } else if byte_len(gs[0]) > budget {
        0
    } else {
        1 + fit_count(gs.drop_first(), (budget - byte_len(gs[0])) as nat)
    }
}

/// The position of byte offset `byte`, scanning rows from `r` (which starts at byte `off`).
pub open spec fn from_byte_rows(l: Seq<Seq<Seq<char>>>, r: nat, off: nat, byte: nat) -> Cursor
    decreases l.len() - r,
{
    if r >= l.len() {
        cursor_at(0, 0)
    } else {
        let lb = line_bytes(l[r as int]);
        if off + lb >= byte || r == l.len() - 1 {
            let local = if byte >= off {
                if byte - off <= lb {
                    (byte - off) as nat
                } else {
                    lb
                }
            } else {
                0
            };
            cursor_at(r as int, fit_count(l[r as int], local) as int)
        } else {
            from_byte_rows(l, r + 1, off + lb + 1, byte)
        }
    }
}

/// The position of byte offset `byte` in the editor's text.
pub open spec fn from_byte_spec(l: Seq<Seq<Seq<char>>>, byte: nat) -> Cursor {
    from_byte_rows(l, 0, 0, byte)
}


/// The clusters that fill exactly the bytes of the first `k` clusters are
/// those `k` clusters.
proof fn lemma_fit_prefix(gs: Seq<Seq<char>>, k: nat)
    requires
        k <= gs.len(),
        forall|i: int| 0 <= i < gs.len() ==> (#[trigger] gs[i]).len() > 0,
    ensures
        fit_count(gs, byte_len(gs.take(k as int).flatten())) == k,
    decreases k,
{
    if k == 0 {
        assert(gs.take(0).flatten() =~= Seq::<char>::empty());
        if gs.len() > 0 {
            crate::text::lemma_byte_len_zero(gs[0]);
        }
    } else {
        let rest = gs.drop_first();
        assert(gs.take(k as int) =~= seq![gs[0]] + rest.take(k - 1));
        vstd::seq_lib::lemma_flatten_concat(seq![gs[0]], rest.take(k - 1));
        seq![gs[0]].lemma_flatten_one_element();
        crate::text::lemma_byte_len_concat(gs[0], rest.take(k - 1).flatten());
        assert forall|i: int| 0 <= i < rest.len() implies (#[trigger] rest[i]).len() > 0 by {
            assert(rest[i] == gs[i + 1]);
        }
        lemma_fit_prefix(rest, (k - 1) as nat);
    }
}

/// Scanning rows from `r` (at or before the cursor's row) finds the cursor
/// again from its byte offset.
proof fn lemma_from_rows_offset(l: Seq<Seq<Seq<char>>>, c: Cursor, r: nat)
    requires
        valid_cursor(l, c),
        clusters_nonempty(l),
        r <= c.row,
    ensures
        from_byte_rows(l, r, rows_bytes(l, r), byte_offset_spec(l, c)) == c,
    decreases c.row - r,
{
    let row = c.row as int;
    let line = l[row];
    let part = line.take(c.col as int).flatten();
    let b = byte_offset_spec(l, c);
    if r < c.row {
        lemma_rows_bytes_mono(l, r + 1, c.row as nat);
        lemma_from_rows_offset(l, c, r + 1);
    } else {
        assert(line =~= line.take(c.col as int) + line.skip(c.col as int));
        vstd::seq_lib::lemma_flatten_concat(line.take(c.col as int), line.skip(c.col as int));
        crate::text::lemma_byte_len_concat(part, line.skip(c.col as int).flatten());
        assert forall|i: int| 0 <= i < line.len() implies (#[trigger] line[i]).len() > 0 by {
            assert(l[row][i].len() > 0);
        }
        lemma_fit_prefix(line, c.col as nat);
    }
}

/// The line count and every line's length fit in a `usize`, as they do for
/// the editor's own vectors.
pub open spec fn fits_usize(l: Seq<Seq<Seq<char>>>) -> bool {
    l.len() <= usize::MAX && forall|r: int| 0 <= r < l.len() ==> (#[trigger] l[r]).len() <= usize::MAX
}

/// The bytes of the first `k` clusters of a line.
pub open spec fn prefix_bytes(gs: Seq<Seq<char>>, k: int) -> nat {
    byte_len(gs.take(k).flatten())
}

proof fn lemma_prefix_step(gs: Seq<Seq<char>>, k: int)
    requires
        0 < k <= gs.len(),
    ensures
        prefix_bytes(gs, k) == byte_len(gs[0]) + prefix_bytes(gs.drop_first(), k - 1),
{
    let rest = gs.drop_first();
    assert(gs.take(k) =~= seq![gs[0]] + rest.take(k - 1));
    vstd::seq_lib::lemma_flatten_concat(seq![gs[0]], rest.take(k - 1));
    seq![gs[0]].lemma_flatten_one_element();
    crate::text::lemma_byte_len_concat(gs[0], rest.take(k - 1).flatten());
}

/// Prefix bytes grow with the number of clusters, up to the whole line.
proof fn lemma_prefix_mono(gs: Seq<Seq<char>>, j: int, k: int)
    requires
        0 <= j <= k <= gs.len(),
    ensures
        prefix_bytes(gs, j) <= prefix_bytes(gs, k),
        prefix_bytes(gs, k) <= line_bytes(gs),
    decreases gs.len(),
{
    if j == 0 {
        assert(gs.take(0).flatten() =~= Seq::<char>::empty());
    }
    if k > 0 {
        lemma_prefix_step(gs, k);
        lemma_prefix_step(gs, gs.len() as int);
        if j > 0 {
            lemma_prefix_step(gs, j);
        }
        lemma_prefix_mono(gs.drop_first(), if j > 0 { j - 1 } else { 0 }, k - 1);
        lemma_prefix_mono(gs.drop_first(), k - 1, gs.len() - 1);
        if j == 0 {
            assert(prefix_bytes(gs.drop_first(), 0) == 0) by {
                assert(gs.drop_first().take(0).flatten() =~= Seq::<char>::empty());
            }
        }
    } else {
        if gs.len() > 0 {
            lemma_prefix_step(gs, gs.len() as int);
            lemma_prefix_mono(gs.drop_first(), 0, gs.len() - 1);
        } else {
            assert(gs.take(0) =~= gs);
        }
    }
    assert(gs.take(gs.len() as int) =~= gs);
}

/// `fit_count` is the most clusters whose bytes fit within the budget.
proof fn lemma_fit_count(gs: Seq<Seq<char>>, budget: nat, k: int)
    ensures
        fit_count(gs, budget) <= gs.len(),
        prefix_bytes(gs, fit_count(gs, budget) as int) <= budget,
        0 <= k <= gs.len() && prefix_bytes(gs, k) <= budget ==> k <= fit_count(gs, budget),
    decreases gs.len(),
{
    if gs.len() == 0 {
        assert(gs.take(0).flatten() =~= Seq::<char>::empty());
    } else if byte_len(gs[0]) > budget {
        assert(gs.take(0).flatten() =~= Seq::<char>::empty());
        if 0 < k <= gs.len() {
            lemma_prefix_step(gs, k);
        }
    } else {
        let rest = gs.drop_first();
        let nb = (budget - byte_len(gs[0])) as nat;
        lemma_fit_count(rest, nb, k - 1);
        lemma_prefix_step(gs, fit_count(gs, budget) as int);
        if 0 < k <= gs.len() {
            lemma_prefix_step(gs, k);
        }
    }
}

/// Scanning from row `r` (starting at byte `rows_bytes(l, r)`, at most `b`)
/// finds a valid position whose offset is at most `b` and the text's length,
/// and no valid position at or after row `r` within those bounds lies after it.
proof fn lemma_from_rows_last(l: Seq<Seq<Seq<char>>>, r: nat, b: nat)
    requires
        r < l.len(),
        rows_bytes(l, r) <= b,
        fits_usize(l),
    ensures
        ({
            let c = from_byte_rows(l, r, rows_bytes(l, r), b);
            let m = if b < byte_len(text_spec(l)) { b } else { byte_len(text_spec(l)) };
            &&& valid_cursor(l, c)
            &&& c.row >= r
            &&& byte_offset_spec(l, c) <= m
            &&& forall|d: Cursor|
                valid_cursor(l, d) && d.row >= r && byte_offset_spec(l, d) <= m ==> byte_offset_spec(l, d)
                    <= byte_offset_spec(l, c)
        }),
    decreases l.len() - r,
{
    let off = rows_bytes(l, r);
    let line = l[r as int];
    let lb = line_bytes(line);
    let c = from_byte_rows(l, r, off, b);
    let m = if b < byte_len(text_spec(l)) { b } else { byte_len(text_spec(l)) };
    lemma_row_within_text(l, r);
    if off + lb >= b || r == l.len() - 1 {
        let local: nat = if b - off <= lb { (b - off) as nat } else { lb };
        lemma_fit_count(line, local, 0);
        let f = fit_count(line, local);
        assert(c == cursor_at(r as int, f as int));
        assert(line.len() <= usize::MAX);
        assert(c.row == r && c.col == f);
        lemma_prefix_mono(line, f as int, line.len() as int);
        assert(byte_offset_spec(l, c) == off + prefix_bytes(line, f as int));
        assert forall|d: Cursor|
            valid_cursor(l, d) && d.row >= r && byte_offset_spec(l, d) <= m implies byte_offset_spec(l, d)
                <= byte_offset_spec(l, c) by {
            if d.row == r {
                lemma_prefix_mono(line, d.col as int, line.len() as int);
                lemma_fit_count(line, local, d.col as int);
                lemma_prefix_mono(line, d.col as int, f as int);
            } else {
                lemma_rows_bytes_mono(l, r + 1, d.row as nat);
                if r + 1 < l.len() {
                    lemma_row_within_text(l, (r + 1) as nat);
                }
            }
        }
    } else {
        lemma_from_rows_last(l, r + 1, b);
        let c2 = from_byte_rows(l, r + 1, rows_bytes(l, r + 1), b);
        assert(c == c2);
        lemma_rows_bytes_mono(l, r + 1, c.row as nat);
        assert forall|d: Cursor|
            valid_cursor(l, d) && d.row >= r && byte_offset_spec(l, d) <= m implies byte_offset_spec(l, d)
                <= byte_offset_spec(l, c) by {
            if d.row == r {
                lemma_prefix_mono(line, d.col as int, line.len() as int);
            }
        }
    }
}

/// Reading a byte offset gives the last position at or before it: a valid
/// cursor whose offset is at most the offset (and the text's length), with
/// no valid cursor between the two.
pub proof fn law_from_byte_is_last_boundary(v: EditorView, b: nat)
    requires
        v.wf(),
        fits_usize(v.lines),
    ensures
        ({
            let c = from_byte_spec(v.lines, b);
            let m = if b < byte_len(text_spec(v.lines)) { b } else { byte_len(text_spec(v.lines)) };
            &&& valid_cursor(v.lines, c)
            &&& byte_offset_spec(v.lines, c) <= m
            &&& forall|d: Cursor|
                valid_cursor(v.lines, d) && byte_offset_spec(v.lines, d) <= m ==> byte_offset_spec(v.lines, d)
                    <= byte_offset_spec(v.lines, c)
        }),
{
    lemma_from_rows_last(v.lines, 0, b);
}

/// Reading a position back from its byte offset gives the position: the
/// cursor of a well-formed editor survives the trip through
/// `cursor_byte_offset` and `cursor_from_byte_offset`.
pub proof fn law_byte_offset_round_trip(v: EditorView)
    requires
        v.wf(),
    ensures
        from_byte_spec(v.lines, byte_offset_spec(v.lines, v.cursor)) == v.cursor,
{
    lemma_from_rows_offset(v.lines, v.cursor, 0);
}

/// Sum of the display widths of clusters.
pub open spec fn widths(gs: Seq<Seq<char>>) -> nat
    decreases gs.len(),
{
    if gs.len() == 0 {
        0
    } else {
        widths(gs.drop_last()) + display_width(gs.last())
    }
}

proof fn lemma_text_bytes(l: Seq<Seq<Seq<char>>>, k: nat)
    requires
        1 <= k <= l.len(),
    ensures
        byte_len(join_with(Seq::new(l.len(), |i: int| line_text(l[i])).take(k as int), '\n'))
            == rows_bytes(l, (k - 1) as nat) + line_bytes(l[k - 1]),
    decreases k,
{
    let texts = Seq::new(l.len(), |i: int| line_text(l[i]));
    let tk = texts.take(k as int);
    if k == 1 {
        assert(join_with(tk, '\n') == tk[0]);
    } else {
        lemma_text_bytes(l, (k - 1) as nat);
        assert(tk.drop_last() =~= texts.take(k - 1));
        let j = join_with(texts.take(k - 1), '\n');
        assert(join_with(tk, '\n') == j.push('\n') + texts[k - 1]);
        lemma_byte_len_concat(j.push('\n'), texts[k - 1]);
        assert(j.push('\n').drop_last() =~= j);
    }
}

proof fn lemma_rows_bytes_mono(l: Seq<Seq<Seq<char>>>, a: nat, b: nat)
    requires
        a <= b,
    ensures
        rows_bytes(l, a) <= rows_bytes(l, b),
    decreases b,
{
    if a < b {
        lemma_rows_bytes_mono(l, a, (b - 1) as nat);
    }
}

/// Every row's bytes, with the rows before it, fit within the text's bytes.
proof fn lemma_row_within_text(l: Seq<Seq<Seq<char>>>, r: nat)
    requires
        r < l.len(),
    ensures
        rows_bytes(l, r) + line_bytes(l[r as int]) <= byte_len(text_spec(l)),
{
    let n = l.len();
    lemma_text_bytes(l, n);
    let texts = Seq::new(l.len(), |i: int| line_text(l[i]));
    assert(texts.take(n as int) =~= texts);
    if r + 1 < n {
        lemma_rows_bytes_mono(l, r + 1, (n - 1) as nat);
    }
}

/// Bytes of a prefix of clusters grow with the prefix and stay within the line.
proof fn lemma_prefix_bytes(gs: Seq<Seq<char>>, a: int, b: int)
    requires
        0 <= a <= b <= gs.len(),
    ensures
        byte_len(gs.take(a).flatten()) <= byte_len(gs.take(b).flatten()),
        byte_len(gs.take(b).flatten()) == byte_len(gs.take(a).flatten()) + byte_len(
            gs.subrange(a, b).flatten(),
        ),
{
    assert(gs.take(b) =~= gs.take(a) + gs.subrange(a, b));
    lemma_flatten_concat(gs.take(a), gs.subrange(a, b));
    lemma_byte_len_concat(gs.take(a).flatten(), gs.subrange(a, b).flatten());
}

proof fn lemma_one_bytes(gs: Seq<Seq<char>>, a: int)
    requires
        0 <= a < gs.len(),
    ensures
        byte_len(gs.take(a + 1).flatten()) == byte_len(gs.take(a).flatten()) + byte_len(gs[a]),
{
    lemma_prefix_bytes(gs, a, a + 1);
    assert(gs.subrange(a, a + 1) =~= seq![gs[a]]);
    seq![gs[a]].lemma_flatten_one_element();
}

proof fn lemma_fit_step(gs: Seq<Seq<char>>, col: int, budget: nat)
    requires
        0 <= col < gs.len(),
        byte_len(gs[col]) <= budget,
    ensures
        fit_count(gs.skip(col), budget) == 1 + fit_count(gs.skip(col + 1), (budget - byte_len(gs[col])) as nat),
{
    assert(gs.skip(col).drop_first() =~= gs.skip(col + 1));
    assert(gs.skip(col)[0] == gs[col]);
}

impl TextEditor {
    /// Bytes of clusters `line[0..j]`.
    fn prefix_byte_len(line: &Vec<Vec<char>>, j: usize) -> (r: usize)
        requires
            j <= line@.len(),
            byte_len(view2(line@).take(j as int).flatten()) <= usize::MAX,
        ensures
            r == byte_len(view2(line@).take(j as int).flatten()),
    {
        let ghost gs = view2(line@);
        let mut off: usize = 0;
        let mut k: usize = 0;
        assert(gs.take(0) =~= Seq::<Seq<char>>::empty());
        while k < j
            invariant
                gs == view2(line@),
                k <= j <= line@.len(),
                off == byte_len(gs.take(k as int).flatten()),
                byte_len(gs.take(j as int).flatten()) <= usize::MAX,
            decreases j - k,
        {
            proof {
                lemma_one_bytes(gs, k as int);
                lemma_prefix_bytes(gs, k + 1, j as int);
            }
            off = off + chars_byte_len(line[k].as_slice());
            k += 1;
        }
        off
    }

    /// Byte offset of the cursor in the editor's text.
    pub fn cursor_byte_offset(&self) -> (r: usize)
        requires
            self@.wf(),
            byte_len(text_spec(self@.lines)) <= usize::MAX,
        ensures
            r == byte_offset_spec(self@.lines, self@.cursor),
    {
        let ghost l = self@.lines;
        let row = self.cursor.row;
        let col = self.cursor.col;
        proof {
            lemma_row_within_text(l, row as nat);
        }
        let mut off: usize = 0;
        let mut r: usize = 0;
        while r < row
            invariant
                l == self@.lines,
                row == self@.cursor.row,
                row < l.len(),
                r <= row,
                off == rows_bytes(l, r as nat),
                rows_bytes(l, row as nat) <= usize::MAX,
            decreases row - r,
        {
            proof {
                lemma_rows_bytes_mono(l, (r + 1) as nat, row as nat);
                assert(view2(self.lines@[r as int]@).take(self.lines@[r as int]@.len() as int) =~= l[r as int]);
            }
            let lb = Self::prefix_byte_len(&self.lines[r], self.lines[r].len());
            off = off + lb + 1;
            r += 1;
        }
        proof {
            assert(view2(self.lines@[row as int]@) == l[row as int]);
            lemma_prefix_bytes(l[row as int], col as int, l[row as int].len() as int);
            assert(l[row as int].take(l[row as int].len() as int) =~= l[row as int]);
        }
        let p = Self::prefix_byte_len(&self.lines[row], col);
        off + p
    }

    /// The position of byte offset `byte` in the editor's text (clamped).
    pub fn cursor_from_byte_offset(&self, byte: usize) -> (r: Cursor)
        requires
            self@.wf(),
            byte_len(text_spec(self@.lines)) < usize::MAX,
        ensures
            r == from_byte_spec(self@.lines, byte as nat),
            valid_cursor(self@.lines, r),
    {
        let ghost l = self@.lines;
        let n = self.lines.len();
        let mut off: usize = 0;
        let mut r: usize = 0;
        while r < n
            invariant
                l == self@.lines,
                n == l.len(),
                n >= 1,
                r < n,
                off == rows_bytes(l, r as nat),
                from_byte_spec(l, byte as nat) == from_byte_rows(l, r as nat, off as nat, byte as nat),
                byte_len(text_spec(l)) < usize::MAX,
            decreases n - r,
        {
            proof {
                lemma_row_within_text(l, r as nat);
                assert(view2(self.lines@[r as int]@).take(self.lines@[r as int]@.len() as int) =~= l[r as int]);
            }
            let line = &self.lines[r];
            let lb = Self::prefix_byte_len(line, line.len());
            if off + lb >= byte || r == n - 1 {
                let local = if byte >= off {
                    if byte - off <= lb {
                        byte - off
                    } else {
                        lb
                    }
                } else {
                    0
                };
                let ghost gs = l[r as int];
                let mut col: usize = 0;
                let mut used: usize = 0;
                proof {
                    assert(gs.skip(0) =~= gs);
                    assert(gs.take(0) =~= Seq::<Seq<char>>::empty());
                }
                while col < line.len() && used + Self::cluster_bytes(line, col) <= local
                    invariant
                        gs == view2(line@),
                        col <= line@.len(),
                        used == byte_len(gs.take(col as int).flatten()),
                        used <= local,
                        local <= lb,
                        lb == byte_len(gs.take(gs.len() as int).flatten()),
                        fit_count(gs, local as nat) == col + fit_count(gs.skip(col as int), (local - used) as nat),
                    decreases line.len() - col,
                {
                    proof {
                        lemma_one_bytes(gs, col as int);
                        lemma_fit_step(gs, col as int, (local - used) as nat);
                    }
                    used = used + Self::cluster_bytes(line, col);
                    col += 1;
                }
                proof {
                    if col < gs.len() {
                        assert(gs.skip(col as int)[0] == gs[col as int]);
                        lemma_one_bytes(gs, col as int);
                    } else {
                        assert(gs.skip(col as int).len() == 0);
                    }
                }
                return Cursor { row: r, col };
            }
            off = off + lb + 1;
            r += 1;
        }
        Cursor { row: 0, col: 0 }
    }

    /// Bytes of the cluster `line[col]`.
    fn cluster_bytes(line: &Vec<Vec<char>>, col: usize) -> (r: usize)
        requires
            col < line@.len(),
            byte_len(view2(line@).take(line@.len() as int).flatten()) <= usize::MAX,
        ensures
            r == byte_len(line@[col as int]@),
            byte_len(view2(line@).take(col as int).flatten()) + r <= byte_len(
                view2(line@).take(line@.len() as int).flatten(),
            ),
    {
        proof {
            let gs = view2(line@);
            lemma_one_bytes(gs, col as int);
            lemma_prefix_bytes(gs, col + 1, gs.len() as int);
        }
        chars_byte_len(line[col].as_slice())
    }

    /// Replace the byte range `[start, end)` with `replacement` as a single
    /// undo step, leaving the cursor after the inserted text.
    pub fn replace_range(&mut self, start: usize, end: usize, replacement: &str)
        requires
            old(self)@.wf(),
            byte_len(text_spec(old(self)@.lines)) < usize::MAX,
            !(from_byte_spec(old(self)@.lines, start as nat).row == from_byte_spec(
                old(self)@.lines,
                end as nat,
            ).row && from_byte_spec(old(self)@.lines, start as nat).col > from_byte_spec(
                old(self)@.lines,
                end as nat,
            ).col),
        ensures
            final(self)@ == old(self)@.begin_edit().delete_range(
                from_byte_spec(old(self)@.lines, start as nat),
                from_byte_spec(old(self)@.lines, end as nat),
            ).insert_parts(text_parts(replacement@)),
            final(self)@.lines.len() >= 1,
            valid_cursor(final(self)@.lines, final(self)@.cursor),
            old(self)@.selection is None ==> final(self)@.wf(),
    {
        self.begin_edit();
        let s = self.cursor_from_byte_offset(start);
        let e = self.cursor_from_byte_offset(end);
        self.delete_range(s, e);
        let t = chars_of(replacement);
        self.insert_text(&t);
    }

    /// Display width (terminal columns) of the cursor's line up to the cursor.
    pub fn cursor_col_width(&self) -> (r: usize)
        requires
            self@.wf(),
            widths(self@.lines[self@.cursor.row as int].take(self@.cursor.col as int)) <= usize::MAX,
        ensures
            r == widths(self@.lines[self@.cursor.row as int].take(self@.cursor.col as int)),
    {
        let line = &self.lines[self.cursor.row];
        let ghost gs = self@.lines[self@.cursor.row as int];
        let col = self.cursor.col;
        let mut w: usize = 0;
        let mut k: usize = 0;
        while k < col
            invariant
                gs == view2(line@),
                col <= gs.len(),
                k <= col,
                w == widths(gs.take(k as int)),
                widths(gs.take(col as int)) <= usize::MAX,
            decreases col - k,
        {
            proof {
                assert(gs.take(k + 1).drop_last() =~= gs.take(k as int));
                lemma_widths_mono(gs, k + 1, col as int);
            }
            w = w + width_of(line[k].as_slice());
            k += 1;
        }
        w
    }
}

proof fn lemma_widths_mono(gs: Seq<Seq<char>>, a: int, b: int)
    requires
        0 <= a <= b <= gs.len(),
    ensures
        widths(gs.take(a)) <= widths(gs.take(b)),
    decreases b - a,
{
    if a < b {
        lemma_widths_mono(gs, a, b - 1);
        assert(gs.take(b).drop_last() =~= gs.take(b - 1));
    }
}

// ---------------------------------------------------------------------------
// Laws
// ---------------------------------------------------------------------------
/// Whether an action saves the current state for undo before changing it.
pub open spec fn is_edit_step(v: EditorView, a: EditorAction) -> bool {
    match a {
        EditorAction::MoveToDocStart | EditorAction::MoveToDocEnd | EditorAction::SelectAll
        | EditorAction::DeleteBackward | EditorAction::DeleteForward
        | EditorAction::DeleteWordBackward | EditorAction::DeleteToLineStart
        | EditorAction::InsertChar(_) | EditorAction::InsertNewline | EditorAction::Paste(_) => true,
        EditorAction::Cut => v.selection is Some,
        EditorAction::PasteClipboard => v.clipboard.len() > 0,
        _ => false,
    }
}

/// Whether an action only moves the cursor, changes the selection or copies.
pub open spec fn is_navigation(a: EditorAction) -> bool {
    match a {
        EditorAction::MoveLeft | EditorAction::MoveRight | EditorAction::MoveUp
        | EditorAction::MoveDown | EditorAction::MoveWordLeft | EditorAction::MoveWordRight
        | EditorAction::MoveToLineStart | EditorAction::MoveToLineEnd | EditorAction::SelectLeft
        | EditorAction::SelectRight | EditorAction::SelectUp | EditorAction::SelectDown
        | EditorAction::SelectWordLeft | EditorAction::SelectWordRight
        | EditorAction::SelectToLineStart | EditorAction::SelectToLineEnd
        | EditorAction::SelectToDocStart | EditorAction::SelectToDocEnd | EditorAction::Copy => true,
        _ => false,
    }
}

/// One undo reverts any editing action as a single step: the text, cursor and
/// selection come back exactly as they were.
pub proof fn law_undo_reverts_edit(v: EditorView, a: EditorAction)
    requires
        v.wf(),
        is_edit_step(v, a),
    ensures
        v.apply(a).apply(EditorAction::Undo).snap() == v.snap(),
{
    let b = v.begin_edit();
    assert(b.undo.last() == v.snap());
}

/// Redo after undo restores the editor exactly.
pub proof fn law_redo_after_undo(v: EditorView)
    requires
        v.wf(),
        v.undo.len() > 0,
    ensures
        v.apply(EditorAction::Undo).apply(EditorAction::Redo) == v,
{
    let u = v.apply(EditorAction::Undo);
    assert(u.redo.last() == v.snap());
    assert(u.redo.drop_last() =~= v.redo);
    assert(u.undo.push(u.snap()) =~= v.undo);
}

/// Undo after redo restores the editor exactly.
pub proof fn law_undo_after_redo(v: EditorView)
    requires
        v.wf(),
        v.redo.len() > 0,
    ensures
        v.apply(EditorAction::Redo).apply(EditorAction::Undo) == v,
{
    let u = v.apply(EditorAction::Redo);
    assert(u.undo.last() == v.snap());
    assert(u.undo.drop_last() =~= v.undo);
    assert(u.redo.push(u.snap()) =~= v.redo);
}

/// Movement, selection and copying never change the text or the history.
pub proof fn law_navigation_keeps_text(v: EditorView, a: EditorAction)
    requires
        v.wf(),
        is_navigation(a),
    ensures
        v.apply(a).lines == v.lines,
        v.apply(a).undo == v.undo,
        v.apply(a).redo == v.redo,
{
}

} // verus!
