use lightcode::tui::editor::{Cursor, EditorAction, TextEditor};

fn type_text(ed: &mut TextEditor, s: &str) {
    for c in s.chars() {
        ed.apply(EditorAction::InsertChar(c));
    }
}

fn from_text_(t: &str) -> TextEditor {
    let mut ed = TextEditor::new();
    ed.load_text(t);
    ed
}

#[test]
fn insert_and_text() {
    let mut ed = TextEditor::new();
    type_text(&mut ed, "hello");
    assert_eq!(ed.text(), "hello");
    assert_eq!(ed.cursor(), Cursor { row: 0, col: 5 });
}

#[test]
fn backspace_and_delete() {
    let mut ed = from_text_("hello");
    ed.apply(EditorAction::MoveToLineEnd);
    ed.apply(EditorAction::DeleteBackward);
    assert_eq!(ed.text(), "hell");
    ed.apply(EditorAction::DeleteForward);
    assert_eq!(ed.text(), "hell"); // at end, no-op
    ed.apply(EditorAction::MoveToLineStart);
    ed.apply(EditorAction::DeleteForward);
    assert_eq!(ed.text(), "ell");
}

#[test]
fn cursor_navigation_multiline() {
    let mut ed = from_text_("ab\ncd");
    ed.apply(EditorAction::MoveToDocEnd);
    assert_eq!(ed.cursor(), Cursor { row: 1, col: 2 });
    ed.apply(EditorAction::MoveLeft);
    assert_eq!(ed.cursor(), Cursor { row: 1, col: 1 });
    ed.apply(EditorAction::MoveLeft);
    ed.apply(EditorAction::MoveLeft);
    assert_eq!(ed.cursor(), Cursor { row: 0, col: 2 }); // wraps to prev line end
    ed.apply(EditorAction::MoveUp); // top line → line start
    assert_eq!(ed.cursor(), Cursor { row: 0, col: 0 });
    ed.apply(EditorAction::MoveDown);
    assert_eq!(ed.cursor(), Cursor { row: 1, col: 0 });
    ed.apply(EditorAction::MoveDown); // at last line → to end
    assert_eq!(ed.cursor(), Cursor { row: 1, col: 2 });
}

#[test]
fn newline_splits_line() {
    let mut ed = TextEditor::new();
    type_text(&mut ed, "hello world");
    ed.apply(EditorAction::MoveWordLeft);
    let pos = ed.cursor();
    ed.apply(EditorAction::InsertNewline);
    assert_eq!(ed.line_count(), 2);
    assert_eq!(ed.text(), "hello \nworld");
    assert_eq!(
        ed.cursor(),
        Cursor {
            row: pos.row + 1,
            col: 0
        }
    );
}

#[test]
fn word_movement() {
    let mut ed = from_text_("hello world authentication service");
    ed.apply(EditorAction::MoveToDocEnd);
    ed.apply(EditorAction::MoveWordLeft);
    assert_eq!(ed.cursor().col, 27); // before "service"
    ed.apply(EditorAction::MoveWordLeft);
    assert_eq!(ed.cursor().col, 12); // before "authentication"
    ed.apply(EditorAction::MoveToLineStart);
    ed.apply(EditorAction::MoveWordRight);
    assert_eq!(ed.cursor().col, 6); // start of "world"
}

#[test]
fn delete_word_backward() {
    let mut ed = from_text_("hello world authentication");
    ed.apply(EditorAction::MoveToDocEnd);
    ed.apply(EditorAction::DeleteWordBackward);
    assert_eq!(ed.text(), "hello world ");
    ed.apply(EditorAction::DeleteWordBackward);
    assert_eq!(ed.text(), "hello ");
}

#[test]
fn delete_to_line_start() {
    let mut ed = from_text_("hello world authentication");
    ed.apply(EditorAction::MoveToDocEnd);
    ed.apply(EditorAction::DeleteToLineStart);
    assert_eq!(ed.text(), "");
}

#[test]
fn selection_delete_and_replace() {
    let mut ed = from_text_("hello world");
    // select "world" via shift+word-right from after space
    ed.apply(EditorAction::MoveToLineEnd);
    ed.apply(EditorAction::SelectWordLeft);
    assert_eq!(ed.selected_text().unwrap(), "world");
    ed.apply(EditorAction::DeleteBackward);
    assert_eq!(ed.text(), "hello ");
    // type replaces selection
    let mut ed = from_text_("hello world");
    ed.apply(EditorAction::MoveToLineEnd);
    ed.apply(EditorAction::SelectWordLeft);
    ed.apply(EditorAction::InsertChar('X'));
    assert_eq!(ed.text(), "hello X");
}

#[test]
fn multiline_selection_delete() {
    let mut ed = from_text_("ab\ncd\nef");
    ed.apply(EditorAction::SelectAll);
    assert_eq!(ed.selected_text().unwrap(), "ab\ncd\nef");
    ed.apply(EditorAction::DeleteBackward);
    assert_eq!(ed.text(), "");
}

#[test]
fn undo_redo() {
    let mut ed = TextEditor::new();
    type_text(&mut ed, "hello");
    ed.apply(EditorAction::Undo);
    assert_eq!(ed.text(), "hell"); // one edit step undone
    ed.apply(EditorAction::Undo);
    assert_eq!(ed.text(), "hel");
    ed.apply(EditorAction::Redo);
    assert_eq!(ed.text(), "hell");
    ed.apply(EditorAction::Redo);
    assert_eq!(ed.text(), "hello");
}

#[test]
fn paste_preserves_newlines() {
    let mut ed = TextEditor::new();
    ed.apply(EditorAction::Paste("line1\nline2".to_string()));
    assert_eq!(ed.text(), "line1\nline2");
    assert_eq!(ed.cursor(), Cursor { row: 1, col: 5 });
}

#[test]
fn paste_replaces_selection_as_one_step() {
    let mut ed = from_text_("hello world");
    ed.apply(EditorAction::MoveToLineEnd);
    ed.apply(EditorAction::SelectWordLeft);
    ed.apply(EditorAction::Paste("X".to_string()));
    assert_eq!(ed.text(), "hello X");
    // single undo removes the whole paste, not one char at a time
    ed.apply(EditorAction::Undo);
    assert_eq!(ed.text(), "hello world");
}

#[test]
fn copy_paste_internal_clipboard() {
    let mut ed = from_text_("hello world");
    ed.apply(EditorAction::SelectAll);
    ed.apply(EditorAction::Copy);
    ed.apply(EditorAction::DeleteBackward);
    assert_eq!(ed.text(), "");
    ed.apply(EditorAction::PasteClipboard);
    assert_eq!(ed.text(), "hello world");
}

#[test]
fn emoji_grapheme_cursor() {
    let mut ed = from_text_("a👨‍👩‍👧b");
    ed.apply(EditorAction::MoveToLineEnd);
    assert_eq!(ed.cursor().col, 3); // a, family-emoji, b
    ed.apply(EditorAction::MoveLeft);
    assert_eq!(ed.cursor().col, 2);
    ed.apply(EditorAction::DeleteBackward); // deletes the family emoji as one cluster
    assert_eq!(ed.text(), "ab");
}

#[test]
fn wide_char_display_width() {
    let mut ed = from_text_("a🙂b");
    ed.apply(EditorAction::MoveToLineEnd);
    // cols: a(0) 🙂(1) b(2); display width: 1 + 2 + 1 = 4
    assert_eq!(ed.cursor_col_width(), 4);
}

#[test]
fn doc_boundaries() {
    let mut ed = from_text_("hi");
    ed.apply(EditorAction::MoveToDocStart);
    assert_eq!(ed.cursor(), Cursor { row: 0, col: 0 });
    ed.apply(EditorAction::MoveLeft);
    assert_eq!(ed.cursor(), Cursor { row: 0, col: 0 }); // stays
    ed.apply(EditorAction::MoveUp);
    assert_eq!(ed.cursor(), Cursor { row: 0, col: 0 });
}

#[test]
fn history_like_load() {
    let mut ed = from_text_("first");
    assert_eq!(ed.text(), "first");
    ed.load_text("second");
    assert_eq!(ed.text(), "second");
    ed.clear();
    assert!(ed.is_empty());
}

#[test]
fn load_then_text_roundtrips_multiline_and_unicode() {
    let t = "a\u{310}e\u{301}\n\nlast line 🇷🇺";
    let ed = from_text_(t);
    assert_eq!(ed.text(), t);
    assert_eq!(ed.line_count(), 3);
}

#[test]
fn undo_then_redo_restores_edit() {
    let mut ed = from_text_("abc");
    ed.apply(EditorAction::MoveToLineEnd);
    ed.apply(EditorAction::InsertNewline);
    ed.apply(EditorAction::Undo);
    assert_eq!(ed.text(), "abc");
    ed.apply(EditorAction::Redo);
    assert_eq!(ed.text(), "abc\n");
}

#[test]
fn byte_offsets_roundtrip_over_multibyte_text() {
    let mut ed = from_text_("é\nab");
    ed.apply(EditorAction::MoveToDocEnd);
    // "é" is 2 bytes, then the newline, then "ab"
    assert_eq!(ed.cursor_byte_offset(), 5);
    assert_eq!(ed.cursor_from_byte_offset(5), Cursor { row: 1, col: 2 });
    assert_eq!(ed.cursor_from_byte_offset(1), Cursor { row: 0, col: 0 });
    assert_eq!(ed.cursor_from_byte_offset(2), Cursor { row: 0, col: 1 });
    assert_eq!(ed.cursor_from_byte_offset(100), Cursor { row: 1, col: 2 });
}

#[test]
fn replace_range_and_current_line() {
    let mut ed = from_text_("fix @au now");
    ed.replace_range(4, 7, "@src/auth.rs");
    assert_eq!(ed.text(), "fix @src/auth.rs now");
    assert_eq!(ed.cursor(), Cursor { row: 0, col: 16 });
    ed.replace_current_line("one\ntwo");
    assert_eq!(ed.text(), "one\ntwo");
    ed.apply(EditorAction::Undo);
    assert_eq!(ed.text(), "fix @src/auth.rs now");
}

#[test]
fn selection_rows_and_scrolling() {
    let mut ed = from_text_("ab\ncd\nef");
    ed.apply(EditorAction::SelectAll);
    assert_eq!(ed.selection_for_row(0), Some((0, 2)));
    assert_eq!(ed.selection_for_row(1), Some((0, 2)));
    assert_eq!(ed.selection_for_row(2), Some((0, 2)));
    assert_eq!(ed.selection_for_row(3), None);
    ed.scroll_to_cursor(1);
    assert_eq!(ed.scroll_row(), 2);
    ed.apply(EditorAction::MoveToDocStart);
    ed.scroll_to_cursor(0);
    assert_eq!(ed.scroll_row(), 0);
    assert_eq!(ed.line_graphemes(2), vec!["e".to_string(), "f".to_string()]);
    assert!(ed.line_graphemes(9).is_empty());
    assert!(ed.clipboard_is_empty());
}

#[test]
fn cut_moves_selection_to_clipboard() {
    let mut ed = from_text_("hello world");
    ed.apply(EditorAction::MoveToLineEnd);
    ed.apply(EditorAction::SelectWordLeft);
    ed.apply(EditorAction::Cut);
    assert_eq!(ed.text(), "hello ");
    assert!(!ed.clipboard_is_empty());
    ed.apply(EditorAction::MoveToLineStart);
    ed.apply(EditorAction::PasteClipboard);
    assert_eq!(ed.text(), "worldhello ");
}

#[test]
fn byte_offset_round_trips_every_position() {
    let mut ed = from_text_("héllo\n\nwörld 🎉x");
    ed.apply(EditorAction::MoveToDocStart);
    loop {
        let c = ed.cursor();
        assert_eq!(ed.cursor_from_byte_offset(ed.cursor_byte_offset()), c);
        ed.apply(EditorAction::MoveRight);
        if ed.cursor() == c {
            break;
        }
    }
}
