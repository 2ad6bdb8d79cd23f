use lightcode::tui::editor::EditorAction;
use lightcode::tui::keys::{map_key, KeyCode, KeyEvent, KeyModifiers};

const NONE: KeyModifiers = KeyModifiers { shift: false, control: false, alt: false, sup: false };
const SHIFT: KeyModifiers = KeyModifiers { shift: true, control: false, alt: false, sup: false };
const CONTROL: KeyModifiers = KeyModifiers { shift: false, control: true, alt: false, sup: false };
const ALT: KeyModifiers = KeyModifiers { shift: false, control: false, alt: true, sup: false };
const SUPER: KeyModifiers = KeyModifiers { shift: false, control: false, alt: false, sup: true };

fn key(code: KeyCode, mods: KeyModifiers) -> KeyEvent {
    KeyEvent::new(code, mods)
}

/// The bindings of the platforms other than macOS.
fn map(k: KeyEvent) -> Option<EditorAction> {
    map_key(k, false)
}

#[test]
fn plain_arrows_move() {
    assert_eq!(map(key(KeyCode::Left, KeyModifiers::empty())), Some(EditorAction::MoveLeft));
    assert_eq!(map(key(KeyCode::Right, KeyModifiers::empty())), Some(EditorAction::MoveRight));
    assert_eq!(map(key(KeyCode::Up, KeyModifiers::empty())), Some(EditorAction::MoveUp));
}

#[test]
fn shift_arrows_select() {
    assert_eq!(map(key(KeyCode::Left, SHIFT)), Some(EditorAction::SelectLeft));
    assert_eq!(map(key(KeyCode::Up, SHIFT)), Some(EditorAction::SelectUp));
}

#[test]
fn word_nav_via_alt() {
    assert_eq!(map(key(KeyCode::Left, ALT)), Some(EditorAction::MoveWordLeft));
    assert_eq!(map(key(KeyCode::Right, ALT)), Some(EditorAction::MoveWordRight));
    assert_eq!(map(key(KeyCode::Backspace, ALT)), Some(EditorAction::DeleteWordBackward));
}

#[test]
fn ctrl_line_and_edit() {
    assert_eq!(map(key(KeyCode::Char('a'), CONTROL)), Some(EditorAction::MoveToLineStart));
    assert_eq!(map(key(KeyCode::Char('e'), CONTROL)), Some(EditorAction::MoveToLineEnd));
    assert_eq!(map(key(KeyCode::Char('w'), CONTROL)), Some(EditorAction::DeleteWordBackward));
    assert_eq!(map(key(KeyCode::Char('z'), CONTROL)), Some(EditorAction::Undo));
}

#[test]
fn super_copy_paste_undo() {
    assert_eq!(map(key(KeyCode::Char('c'), SUPER)), Some(EditorAction::Copy));
    assert_eq!(map(key(KeyCode::Char('v'), SUPER)), Some(EditorAction::PasteClipboard));
    assert_eq!(map(key(KeyCode::Char('a'), SUPER)), Some(EditorAction::SelectAll));
    let sup_shift = KeyModifiers { shift: true, ..SUPER };
    assert_eq!(map(key(KeyCode::Char('z'), sup_shift)), Some(EditorAction::Redo));
}

#[test]
fn mac_cmd_moves_to_edges() {
    let sup_shift = KeyModifiers { shift: true, ..SUPER };
    assert_eq!(map_key(key(KeyCode::Left, SUPER), true), Some(EditorAction::MoveToLineStart));
    assert_eq!(map_key(key(KeyCode::Right, sup_shift), true), Some(EditorAction::SelectToLineEnd));
    assert_eq!(map_key(key(KeyCode::Up, SUPER), true), Some(EditorAction::MoveToDocStart));
    assert_eq!(map_key(key(KeyCode::Backspace, SUPER), true), Some(EditorAction::DeleteToLineStart));
    // Elsewhere Super does not move to the edges.
    assert_eq!(map(key(KeyCode::Left, SUPER)), Some(EditorAction::MoveLeft));
    assert_eq!(map(key(KeyCode::Backspace, SUPER)), Some(EditorAction::DeleteBackward));
}

#[test]
fn typing_and_unbound_keys() {
    assert_eq!(map(key(KeyCode::Char('q'), NONE)), Some(EditorAction::InsertChar('q')));
    assert_eq!(map(key(KeyCode::Char('\n'), NONE)), None);
    assert_eq!(map(key(KeyCode::Char('q'), CONTROL)), None);
    assert_eq!(map(key(KeyCode::Char('q'), SUPER)), None);
    assert_eq!(map(key(KeyCode::Other, NONE)), None);
    assert_eq!(map(key(KeyCode::Delete, NONE)), Some(EditorAction::DeleteForward));
    assert_eq!(map(key(KeyCode::Backspace, CONTROL)), Some(EditorAction::DeleteWordBackward));
    assert_eq!(map(key(KeyCode::Char('j'), CONTROL)), Some(EditorAction::InsertNewline));
}
