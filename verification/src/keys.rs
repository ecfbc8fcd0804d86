//! Key presses, and the actions they stand for.
use vstd::prelude::*;

use crate::actions::Action;

verus! {

/// The key that was pressed.
#[derive(Clone, Copy, Debug, PartialEq, Eq, Structural)]
pub enum KeyCode {
    Char(char),
    Backspace,
    Enter,
    Esc,
    Left,
    Right,
    Up,
    Down,
    Home,
    End,
    /// A function key, F1 to F24.
    F(u8),
    /// Any other key.
    Other,
}

/// Whether the key went down, repeated, or came up.
#[derive(Clone, Copy, Debug, PartialEq, Eq, Structural)]
pub enum KeyEventKind {
    Press,
    Repeat,
    Release,
}

/// Modifier keys held during the press (a bit set, as the terminal reports it).
#[derive(Clone, Copy, Debug, PartialEq, Eq, Structural)]
pub struct KeyModifiers {
    pub bits: u8,
}

impl KeyModifiers {
    /// No modifier held.
    pub fn none() -> (r: KeyModifiers)
        ensures
            r.bits == 0,
    {
        KeyModifiers { bits: 0 }
    }

    /// Control held (the terminal's CONTROL bit, 0b10).
    pub fn control() -> (r: KeyModifiers)
        ensures
            r.bits == 2,
    {
        KeyModifiers { bits: 2 }
    }
}

/// Whether the Control key is among the modifiers.
pub open spec fn control_held(m: KeyModifiers) -> bool {
    m.bits & 2 != 0
}

/// A key event.
#[derive(Clone, Copy, Debug, PartialEq, Eq, Structural)]
pub struct KeyEvent {
    pub code: KeyCode,
    pub modifiers: KeyModifiers,
    pub kind: KeyEventKind,
}

impl KeyEvent {
    /// A key press of `code` with the given modifiers.
    pub fn new(code: KeyCode, modifiers: KeyModifiers) -> (r: KeyEvent)
        ensures
            r.code == code,
            r.modifiers == modifiers,
            r.kind == KeyEventKind::Press,
    {
        KeyEvent { code, modifiers, kind: KeyEventKind::Press }
    }
}

/// The action a key press stands for. Only presses count. While text is
/// being edited, characters are typed and the editing keys edit; otherwise
/// keys navigate.
pub open spec fn key_action(key: KeyEvent, in_edit_mode: bool) -> Option<Action> {
    if key.kind != KeyEventKind::Press {
        None
    } else if in_edit_mode {
        match key.code {
            KeyCode::Char(c) => Some(Action::InputChar(c)),
            KeyCode::Backspace => Some(Action::DeleteChar),
            KeyCode::Enter => Some(Action::SaveSettings),
            KeyCode::Esc => Some(Action::Back),
            KeyCode::Left => Some(Action::CursorLeft),
            KeyCode::Right => Some(Action::CursorRight),
            KeyCode::Home => Some(Action::Home),
            KeyCode::End => Some(Action::End),
            _ => None,
        }
    } else {
        match key.code {
            KeyCode::Char(c) => if c == 'q' || c == 'Q' {
                Some(Action::Quit)
            } else if c == 'k' {
                Some(Action::SelectPrevious)
            } else if c == 'j' {
                Some(Action::SelectNext)
            } else if c == 'l' {
                Some(Action::OpenChallengeView)
            } else if c == 'h' {
                Some(Action::Back)
            } else if c == ' ' {
                Some(Action::ToggleSolved)
            } else if c == 'r' {
                Some(Action::RefreshFromAPI)
            } else if c == 's' || c == 'S' {
                Some(Action::OpenSettings)
            } else if c == 'a' || c == 'A' {
                Some(Action::ToggleArchive)
            } else {
                None
            },
            KeyCode::Up => Some(Action::SelectPrevious),
            KeyCode::Down => Some(Action::SelectNext),
            KeyCode::Right => Some(Action::OpenChallengeView),
            KeyCode::Left => Some(Action::Back),
            KeyCode::Enter => Some(Action::Enter),
            KeyCode::Esc | KeyCode::Backspace => Some(Action::Back),
            KeyCode::F(n) => if n == 5 {
                Some(Action::RefreshFromAPI)
            } else {
                None
            },
            _ => None,
        }
    }
}

/// The action a key event stands for, if any.
pub fn handle_key_event(key: KeyEvent, in_edit_mode: bool) -> (r: Option<Action>)
    ensures
        r == key_action(key, in_edit_mode),
{
    match key.kind {
        KeyEventKind::Press => {},
        _ => {
            return None;
        },
    }
    if in_edit_mode {
        return match key.code {
            KeyCode::Char(c) => Some(Action::InputChar(c)),
            KeyCode::Backspace => Some(Action::DeleteChar),
            KeyCode::Enter => Some(Action::SaveSettings),
            KeyCode::Esc => Some(Action::Back),
            KeyCode::Left => Some(Action::CursorLeft),
            KeyCode::Right => Some(Action::CursorRight),
            KeyCode::Home => Some(Action::Home),
            KeyCode::End => Some(Action::End),
            _ => None,
        };
    }
    match key.code {
        KeyCode::Char('q') | KeyCode::Char('Q') => Some(Action::Quit),
        KeyCode::Up | KeyCode::Char('k') => Some(Action::SelectPrevious),
        KeyCode::Down | KeyCode::Char('j') => Some(Action::SelectNext),
        KeyCode::Right | KeyCode::Char('l') => Some(Action::OpenChallengeView),
        KeyCode::Left | KeyCode::Char('h') => Some(Action::Back),
        KeyCode::Enter => Some(Action::Enter),
        KeyCode::Char(' ') => Some(Action::ToggleSolved),
        KeyCode::Esc | KeyCode::Backspace => Some(Action::Back),
        KeyCode::Char('r') | KeyCode::F(5) => Some(Action::RefreshFromAPI),
        KeyCode::Char('s') | KeyCode::Char('S') => Some(Action::OpenSettings),
        KeyCode::Char('a') | KeyCode::Char('A') => Some(Action::ToggleArchive),
        _ => None,
    }
}

/// While a settings field is being edited, every character key is typed
/// into it, whatever the character and the modifiers.
pub proof fn lemma_edit_mode_types_every_char(c: char, modifiers: KeyModifiers)
    ensures
        key_action(
            KeyEvent { code: KeyCode::Char(c), modifiers, kind: KeyEventKind::Press },
            true,
        ) == Some(Action::InputChar(c)),
{
}

/// The action a key press stands for in the setup (onboarding) dialog:
/// Ctrl+C exits setup; every other key acts as while editing text.
pub open spec fn setup_key_action(key: KeyEvent) -> Option<Action> {
    if key.kind == KeyEventKind::Press && key.code == KeyCode::Char('c') && control_held(
        key.modifiers,
    ) {
        Some(Action::Quit)
    } else {
        key_action(key, true)
    }
}

/// The action a key event stands for in the setup dialog, if any.
pub fn handle_setup_key_event(key: KeyEvent) -> (r: Option<Action>)
    ensures
        r == setup_key_action(key),
{
    match (key.kind, key.code) {
        (KeyEventKind::Press, KeyCode::Char('c')) => {
            if key.modifiers.bits & 2 != 0 {
                return Some(Action::Quit);
            }
        },
        _ => {},
    }
    handle_key_event(key, true)
}

/// In the setup dialog, a press of Ctrl+C exits setup, whatever other
/// modifiers are held.
pub proof fn lemma_ctrl_c_quits_setup(modifiers: KeyModifiers)
    requires
        control_held(modifiers),
    ensures
        setup_key_action(
            KeyEvent { code: KeyCode::Char('c'), modifiers, kind: KeyEventKind::Press },
        ) == Some(Action::Quit),
{
}

/// Releases and repeats never stand for an action.
pub proof fn lemma_only_presses_act(key: KeyEvent, in_edit_mode: bool)
    requires
        key.kind != KeyEventKind::Press,
    ensures
        key_action(key, in_edit_mode) is None,
{
}

} // verus!
