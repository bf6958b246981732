//! Keys to actions: the reducer interprets printable characters by mode, so
//! the mapping itself is fixed.

use vstd::prelude::*;

use crate::app::{stepped, Action, App};

verus! {

/// The key of a key press, as far as the client distinguishes keys.
#[derive(Debug, Clone, Copy, PartialEq, Eq, Structural)]
pub enum KeyCode {
    Char(char),
    Down,
    Up,
    Enter,
    Esc,
    Tab,
    BackTab,
    Backspace,
    /// Any other key.
    Other,
}

/// A key press: the key and whether Control was held.
#[derive(Debug, Clone, Copy, PartialEq, Eq, Structural)]
pub struct KeyInput {
    pub code: KeyCode,
    pub ctrl: bool,
}

/// The action a key press stands for, if any.
pub open spec fn key_action(key: KeyInput) -> Option<Action> {
    if key.code == KeyCode::Char('c') && key.ctrl {
        Some(Action::Quit)
    } else {
        match key.code {
            KeyCode::Down => Some(Action::ScrollDown),
            KeyCode::Up => Some(Action::ScrollUp),
            KeyCode::Enter => Some(Action::Enter),
            KeyCode::Esc => Some(Action::Escape),
            KeyCode::Tab => Some(Action::FocusNext),
            KeyCode::BackTab => Some(Action::FocusPrev),
            KeyCode::Backspace => Some(Action::FilterBackspace),
            KeyCode::Char(c) => Some(Action::FilterChar(c)),
            KeyCode::Other => None,
        }
    }
}

/// Maps a key press to its action: Ctrl+C quits in every mode, every
/// printable character goes to the reducer as `FilterChar`.
pub fn map_key(key: KeyInput) -> (r: Option<Action>)
    ensures
        r == key_action(key),
{
    if key.code == KeyCode::Char('c') && key.ctrl {
        return Some(Action::Quit);
    }
    match key.code {
        KeyCode::Down => Some(Action::ScrollDown),
        KeyCode::Up => Some(Action::ScrollUp),
        KeyCode::Enter => Some(Action::Enter),
        KeyCode::Esc => Some(Action::Escape),
        KeyCode::Tab => Some(Action::FocusNext),
        KeyCode::BackTab => Some(Action::FocusPrev),
        KeyCode::Backspace => Some(Action::FilterBackspace),
        KeyCode::Char(c) => Some(Action::FilterChar(c)),
        KeyCode::Other => None,
    }
}


/// Ctrl+C quits in every mode and with any focus: the key maps to `Quit`,
/// and `Quit` sets the quit flag whatever the state.
pub proof fn lemma_ctrl_c_quits(old: App, new: App)
    requires
        stepped(old, Action::Quit, new),
    ensures
        key_action(KeyInput { code: KeyCode::Char('c'), ctrl: true }) == Some(Action::Quit),
        new.should_quit,
{
}

} // verus!
