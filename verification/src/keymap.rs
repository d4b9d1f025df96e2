//! The key table of the Linux window backend.
//!
//! The window system names keys by a code: the digits `0`–`9` are codes
//! 0–9, the letters `A`–`Z` codes 10–35, the function keys F1–F15 codes
//! 36–50, followed by the arrows, punctuation, editing, lock, modifier and
//! numeric-pad keys (the order of minifb's `Key`, whose discriminants these
//! are).  Letters map to lower-case characters; keys without a
//! counterpart in [`Key`] are dropped.

use vstd::prelude::*;
use crate::event::Key;

verus! {

/// The key that window key code `code` stands for, if the backend maps it:
/// digits and lower-case letters as characters, F1–F12 as function keys,
/// and the arrows, Backspace, Delete, End, Enter, Escape, Home, PageDown,
/// PageUp, Space, Tab, the shift and control keys and the left Alt key by
/// name.  Every other code maps to nothing.
pub open spec fn key_for_code(code: u8) -> Option<Key> {
    if code <= 9 {
        Some(Key::Char(((code + 48) as u8) as char))
    } else if code <= 35 {
        Some(Key::Char(((code - 10 + 97) as u8) as char))
    } else if code <= 47 {
        Some(Key::F((code - 35) as u8))
    } else if code == 51 {
        Some(Key::Down)
    } else if code == 52 {
        Some(Key::Left)
    } else if code == 53 {
        Some(Key::Right)
    } else if code == 54 {
        Some(Key::Up)
    } else if code == 66 {
        Some(Key::Backspace)
    } else if code == 67 {
        Some(Key::Delete)
    } else if code == 68 {
        Some(Key::End)
    } else if code == 69 {
        Some(Key::Enter)
    } else if code == 70 {
        Some(Key::Escape)
    } else if code == 71 {
        Some(Key::Home)
    } else if code == 74 {
        Some(Key::PageDown)
    } else if code == 75 {
        Some(Key::PageUp)
    } else if code == 77 {
        Some(Key::Space)
    } else if code == 78 {
        Some(Key::Tab)
    } else if code == 82 {
        Some(Key::LeftShift)
    } else if code == 83 {
        Some(Key::RightShift)
    } else if code == 84 {
        Some(Key::LeftCtrl)
    } else if code == 85 {
        Some(Key::RightCtrl)
    } else if code == 102 {
        Some(Key::LeftAlt)
    } else {
        None
    }
}

/// Map a window key code to a [`Key`]: see [`key_for_code`].
pub fn translate_key(code: u8) -> (k: Option<Key>)
    ensures
        k == key_for_code(code),
{
    if code <= 9 {
        Some(Key::Char((code + 48) as char))
    } else if code <= 35 {
        Some(Key::Char((code - 10 + 97) as char))
    } else if code <= 47 {
        Some(Key::F(code - 35))
    } else {
        match code {
            51 => Some(Key::Down),
            52 => Some(Key::Left),
            53 => Some(Key::Right),
            54 => Some(Key::Up),
            66 => Some(Key::Backspace),
            67 => Some(Key::Delete),
            68 => Some(Key::End),
            69 => Some(Key::Enter),
            70 => Some(Key::Escape),
            71 => Some(Key::Home),
            74 => Some(Key::PageDown),
            75 => Some(Key::PageUp),
            77 => Some(Key::Space),
            78 => Some(Key::Tab),
            82 => Some(Key::LeftShift),
            83 => Some(Key::RightShift),
            84 => Some(Key::LeftCtrl),
            85 => Some(Key::RightCtrl),
            102 => Some(Key::LeftAlt),
            _ => None,
        }
    }
}

} // verus!
