//! The application-wide keyboard shortcuts: Tab and Shift+Tab move the
//! focus, Escape, F11 for full screen, and Ctrl+F to search.

use vstd::prelude::*;

verus! {

/// What a shortcut asks for.
#[derive(Clone, Copy, Debug, PartialEq, Eq, Hash, Structural)]
pub enum Action {
    Escape,
    FocusNext,
    FocusPrevious,
    Fullscreen,
    Search,
}

/// A key that was pressed, as far as the shortcuts care.
#[derive(Clone, Debug, PartialEq, Eq)]
pub enum Key {
    Tab,
    Escape,
    F11,
    /// Another named key.
    OtherNamed,
    /// A key that types this text.
    Character(String),
}

/// The shortcut a key press makes, if any: only a press no widget took
/// (`ignored`) counts. Tab without Ctrl moves the focus forwards, or
/// backwards with Shift; Escape and F11 are themselves; Ctrl with `f` is a
/// search.
pub open spec fn shortcut(key: Key, ctrl: bool, shift: bool, ignored: bool) -> Option<Action> {
    if !ignored {
        None
    } else {
        match key {
            Key::Tab => if ctrl {
                None
            } else if shift {
                Some(Action::FocusPrevious)
            } else {
                Some(Action::FocusNext)
            },
            Key::Escape => Some(Action::Escape),
            Key::F11 => Some(Action::Fullscreen),
            Key::OtherNamed => None,
            Key::Character(c) => if c@ == "f"@ && ctrl {
                Some(Action::Search)
            } else {
                None
            },
        }
    }
}

/// The shortcut a key press makes: see [`shortcut`].
pub fn action_for(key: &Key, ctrl: bool, shift: bool, ignored: bool) -> (r: Option<Action>)
    ensures
        r == shortcut(*key, ctrl, shift, ignored),
{
    if !ignored {
        return None;
    }
    match key {
        Key::Tab => if ctrl {
            None
        } else if shift {
            Some(Action::FocusPrevious)
        } else {
            Some(Action::FocusNext)
        },
        Key::Escape => Some(Action::Escape),
        Key::F11 => Some(Action::Fullscreen),
        Key::OtherNamed => None,
        Key::Character(c) => {
            if crate::text::str_eq(c.as_str(), "f") && ctrl {
                Some(Action::Search)
            } else {
                None
            }
        },
    }
}

} // verus!
