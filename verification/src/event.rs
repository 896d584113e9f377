//! The keys of the dashboard and what they ask for.

use vstd::prelude::*;
use crate::action::Action;

verus! {

/// A key of the keyboard, as far as the dashboard tells keys apart.
#[derive(Debug, Clone, Copy, PartialEq, Eq, Structural)]
pub enum Key {
    Char(char),
    Tab,
    BackTab,
    Left,
    Right,
    Up,
    Down,
    Esc,
    /// Any other key.
    Other,
}

/// What a key asks for when it is pressed. `control` tells whether the
/// control key is held down with it.
pub open spec fn action_of(key: Key, control: bool) -> Option<Action> {
    match key {
        Key::Char('q') => Some(Action::Quit),
        Key::Char('c') => if control {
            Some(Action::Quit)
        } else {
            None
        },
        Key::Tab | Key::Right => Some(Action::NextTab),
        Key::BackTab | Key::Left => Some(Action::PreviousTab),
        Key::Up | Key::Char('k') => Some(Action::PreviousFile),
        Key::Down | Key::Char('j') => Some(Action::NextFile),
        Key::Char('e') => Some(Action::ToggleErrorDetails),
        Key::Char('1') => Some(Action::GoToTab(1)),
        Key::Char('2') => Some(Action::GoToTab(2)),
        Key::Char('3') => Some(Action::GoToTab(3)),
        Key::Char('4') => Some(Action::GoToTab(4)),
        Key::Char('5') => Some(Action::GoToTab(5)),
        Key::Char('?') => Some(Action::ToggleHelp),
        Key::Esc => Some(Action::HideHelp),
        Key::Char('r') => Some(Action::Refresh),
        _ => None,
    }
}

/// What the key event asks for: nothing unless the key is pressed, and else
/// what the key stands for.
pub fn handle_key_event(key: Key, control: bool, pressed: bool) -> (action: Option<Action>)
    ensures
        action == if pressed {
            action_of(key, control)
        } else {
            None
        },
{
    if !pressed {
        return None;
    }
    match key {
        Key::Char(c) => {
            if c == 'q' {
                Some(Action::Quit)
            } else if c == 'c' {
                if control {
                    Some(Action::Quit)
                } else {
                    None
                }
            } else if c == 'k' {
                Some(Action::PreviousFile)
            } else if c == 'j' {
                Some(Action::NextFile)
            } else if c == 'e' {
                Some(Action::ToggleErrorDetails)
            } else if c == '1' {
                Some(Action::GoToTab(1))
            } else if c == '2' {
                Some(Action::GoToTab(2))
            } else if c == '3' {
                Some(Action::GoToTab(3))
            } else if c == '4' {
                Some(Action::GoToTab(4))
            } else if c == '5' {
                Some(Action::GoToTab(5))
            } else if c == '?' {
                Some(Action::ToggleHelp)
            } else if c == 'r' {
                Some(Action::Refresh)
            } else {
                None
            }
        },
        Key::Tab => Some(Action::NextTab),
        Key::Right => Some(Action::NextTab),
        Key::BackTab => Some(Action::PreviousTab),
        Key::Left => Some(Action::PreviousTab),
        Key::Up => Some(Action::PreviousFile),
        Key::Down => Some(Action::NextFile),
        Key::Esc => Some(Action::HideHelp),
        Key::Other => None,
    }
}

} // verus!
