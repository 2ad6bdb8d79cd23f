//! Key presses to editor actions.
use vstd::prelude::*;

use crate::tui::editor::EditorAction;

verus! {

/// Which key was pressed, as far as the editor cares.
#[derive(Debug, Clone, Copy, PartialEq, Eq, Structural)]
pub enum KeyCode {
    Left,
    Right,
    Up,
    Down,
    Home,
    End,
    Backspace,
    Delete,
    Char(char),
    Enter,
    Esc,
    Tab,
    /// Shift+Tab.
    BackTab,
    PageUp,
    PageDown,
    /// Any other key (function keys, Insert, ...).
    Other,
}

/// Whether a key went down, repeats, or went up.
#[derive(Debug, Clone, Copy, PartialEq, Eq, Structural)]
pub enum KeyEventKind {
    Press,
    Repeat,
    Release,
}

/// The modifier keys held during a key press.
#[derive(Debug, Clone, Copy, PartialEq, Eq, Structural)]
pub struct KeyModifiers {
    pub shift: bool,
    pub control: bool,
    pub alt: bool,
    /// Super: Cmd on macOS.
    pub sup: bool,
}

/// A key press: the key and its modifiers.
#[derive(Debug, Clone, Copy, PartialEq, Eq, Structural)]
pub struct KeyEvent {
    pub code: KeyCode,
    pub modifiers: KeyModifiers,
    pub kind: KeyEventKind,
}

impl KeyModifiers {
    /// No modifier held.
    pub fn empty() -> (r: KeyModifiers)
        ensures
            !r.shift && !r.control && !r.alt && !r.sup,
    {
        KeyModifiers { shift: false, control: false, alt: false, sup: false }
    }
}

impl KeyEvent {
    /// A key press.
    pub fn new(code: KeyCode, modifiers: KeyModifiers) -> (r: KeyEvent)
        ensures
            r == (KeyEvent { code, modifiers, kind: KeyEventKind::Press }),
    {
        KeyEvent { code, modifiers, kind: KeyEventKind::Press }
    }
}

/// The selecting action when shift is held, else the moving one.
pub open spec fn sel_spec(shift: bool, with: EditorAction, without: EditorAction) -> EditorAction {
    if shift {
        with
    } else {
        without
    }
}

fn sel(shift: bool, with: EditorAction, without: EditorAction) -> (r: EditorAction)
    ensures
        r == sel_spec(shift, with, without),
{
    if shift {
        with
    } else {
        without
    }
}

/// The editor action of a key press. On macOS (`mac`) Super (Cmd) moves to
/// line and document edges; Alt moves by words everywhere; Ctrl and Super
/// letters are shortcuts; a plain character is typed, except Enter, which
/// the caller handles.
pub open spec fn map_key_spec(key: KeyEvent, mac: bool) -> Option<EditorAction> {
    let m = key.modifiers;
    let shift = m.shift;
    let meta = mac && m.sup;
    match key.code {
        KeyCode::Left => Some(
            if m.alt {
                sel_spec(shift, EditorAction::SelectWordLeft, EditorAction::MoveWordLeft)
            } else if meta {
                sel_spec(shift, EditorAction::SelectToLineStart, EditorAction::MoveToLineStart)
            } else {
                sel_spec(shift, EditorAction::SelectLeft, EditorAction::MoveLeft)
            },
        ),
        KeyCode::Right => Some(
            if m.alt {
                sel_spec(shift, EditorAction::SelectWordRight, EditorAction::MoveWordRight)
            } else if meta {
                sel_spec(shift, EditorAction::SelectToLineEnd, EditorAction::MoveToLineEnd)
            } else {
                sel_spec(shift, EditorAction::SelectRight, EditorAction::MoveRight)
            },
        ),
        KeyCode::Up => Some(
            if meta {
                sel_spec(shift, EditorAction::SelectToDocStart, EditorAction::MoveToDocStart)
            } else {
                sel_spec(shift, EditorAction::SelectUp, EditorAction::MoveUp)
            },
        ),
        KeyCode::Down => Some(
            if meta {
                sel_spec(shift, EditorAction::SelectToDocEnd, EditorAction::MoveToDocEnd)
            } else {
                sel_spec(shift, EditorAction::SelectDown, EditorAction::MoveDown)
            },
        ),
        KeyCode::Home => Some(sel_spec(shift, EditorAction::SelectToLineStart, EditorAction::MoveToLineStart)),
        KeyCode::End => Some(sel_spec(shift, EditorAction::SelectToLineEnd, EditorAction::MoveToLineEnd)),
        KeyCode::Backspace => Some(
            if m.alt {
                EditorAction::DeleteWordBackward
            } else if meta {
                EditorAction::DeleteToLineStart
            } else if m.control {
                EditorAction::DeleteWordBackward
            } else {
                EditorAction::DeleteBackward
            },
        ),
        KeyCode::Delete => Some(EditorAction::DeleteForward),
        KeyCode::Char(c) => if m.control {
            if c == 'a' {
                Some(sel_spec(shift, EditorAction::SelectToLineStart, EditorAction::MoveToLineStart))
            } else if c == 'e' {
                Some(sel_spec(shift, EditorAction::SelectToLineEnd, EditorAction::MoveToLineEnd))
            } else if c == 'j' {
                Some(EditorAction::InsertNewline)
            } else if c == 'w' {
                Some(EditorAction::DeleteWordBackward)
            } else if c == 'u' {
                Some(EditorAction::DeleteToLineStart)
            } else if c == 'y' || (c == 'z' && shift) {
                Some(EditorAction::Redo)
            } else if c == 'z' {
                Some(EditorAction::Undo)
            } else {
                None
            }
        } else if m.sup {
            if c == 'a' {
                Some(EditorAction::SelectAll)
            } else if c == 'c' {
                Some(EditorAction::Copy)
            } else if c == 'x' {
                Some(EditorAction::Cut)
            } else if c == 'v' {
                Some(EditorAction::PasteClipboard)
            } else if c == 'y' || (c == 'z' && shift) {
                Some(EditorAction::Redo)
            } else if c == 'z' {
                Some(EditorAction::Undo)
            } else {
                None
            }
        } else if c == '\r' || c == '\n' {
            None
        } else {
            Some(EditorAction::InsertChar(c))
        },
        _ => None,
    }
}

/// Map a key press to a logical editor action. `mac` selects the macOS
/// bindings (Cmd for line/document edges).
pub fn map_key(key: KeyEvent, mac: bool) -> (r: Option<EditorAction>)
    ensures
        r == map_key_spec(key, mac),
{
    let m = key.modifiers;
    let shift = m.shift;
    let meta = mac && m.sup;
    match key.code {
        KeyCode::Left => Some(
            if m.alt {
                sel(shift, EditorAction::SelectWordLeft, EditorAction::MoveWordLeft)
            } else if meta {
                sel(shift, EditorAction::SelectToLineStart, EditorAction::MoveToLineStart)
            } else {
                sel(shift, EditorAction::SelectLeft, EditorAction::MoveLeft)
            },
        ),
        KeyCode::Right => Some(
            if m.alt {
                sel(shift, EditorAction::SelectWordRight, EditorAction::MoveWordRight)
            } else if meta {
                sel(shift, EditorAction::SelectToLineEnd, EditorAction::MoveToLineEnd)
            } else {
                sel(shift, EditorAction::SelectRight, EditorAction::MoveRight)
            },
        ),
        KeyCode::Up => Some(
            if meta {
                sel(shift, EditorAction::SelectToDocStart, EditorAction::MoveToDocStart)
            } else {
                sel(shift, EditorAction::SelectUp, EditorAction::MoveUp)
            },
        ),
        KeyCode::Down => Some(
            if meta {
                sel(shift, EditorAction::SelectToDocEnd, EditorAction::MoveToDocEnd)
            } else {
                sel(shift, EditorAction::SelectDown, EditorAction::MoveDown)
            },
        ),
        KeyCode::Home => Some(sel(shift, EditorAction::SelectToLineStart, EditorAction::MoveToLineStart)),
        KeyCode::End => Some(sel(shift, EditorAction::SelectToLineEnd, EditorAction::MoveToLineEnd)),
        KeyCode::Backspace => Some(
            if m.alt {
                EditorAction::DeleteWordBackward
            } else if meta {
                EditorAction::DeleteToLineStart
            } else if m.control {
                // readline Ctrl+W
                EditorAction::DeleteWordBackward
            } else {
                EditorAction::DeleteBackward
            },
        ),
        KeyCode::Delete => Some(EditorAction::DeleteForward),
        KeyCode::Char(c) => {
            if m.control {
                return match c {
                    'a' => Some(sel(shift, EditorAction::SelectToLineStart, EditorAction::MoveToLineStart)),
                    'e' => Some(sel(shift, EditorAction::SelectToLineEnd, EditorAction::MoveToLineEnd)),
                    'j' => Some(EditorAction::InsertNewline),
                    'w' => Some(EditorAction::DeleteWordBackward),
                    'u' => Some(EditorAction::DeleteToLineStart),
                    'y' => Some(EditorAction::Redo),
                    'z' => if shift {
                        Some(EditorAction::Redo)
                    } else {
                        Some(EditorAction::Undo)
                    },
                    _ => None,
                };
            }
            if m.sup {
                return match c {
                    'a' => Some(EditorAction::SelectAll),
                    'c' => Some(EditorAction::Copy),
                    'x' => Some(EditorAction::Cut),
                    'v' => Some(EditorAction::PasteClipboard),
                    'z' => if shift {
                        Some(EditorAction::Redo)
                    } else {
                        Some(EditorAction::Undo)
                    },
                    'y' => Some(EditorAction::Redo),
                    _ => None,
                };
            }
            match c {
                // Enter is handled by the caller.
                '\r' | '\n' => None,
                _ => Some(EditorAction::InsertChar(c)),
            }
        },
        _ => None,
    }
}

} // verus!
