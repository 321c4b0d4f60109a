//! From the keys a terminal reports to the keys the resolver knows.
use vstd::prelude::*;
use crate::keymap::key::{Key, KeyCode};

verus! {

/// A key as a terminal reports it, without its modifiers.
#[derive(Clone, Copy, Debug, PartialEq, Eq, Structural)]
pub enum TerminalKey {
    Backspace,
    Char(char),
    Delete,
    Down,
    End,
    Enter,
    Esc,
    Home,
    Insert,
    Left,
    PageDown,
    PageUp,
    Right,
    Tab,
    Up,
    /// A key the resolver has no use for.
    Other,
}

/// Whether the character is one of the capital letters `A` to `Z`.
pub open spec fn is_capital(c: char) -> bool {
    'A' <= c <= 'Z'
}

/// The small letter of a capital letter.
pub open spec fn small(c: char) -> char {
    ((c as u8) + 32) as char
}

/// The code of a terminal key. A capital letter has the code of its small
/// letter.
pub open spec fn code_of(key: TerminalKey) -> Option<KeyCode> {
    match key {
        TerminalKey::Backspace => Some(KeyCode::Backspace),
        TerminalKey::Char(c) => Some(
            KeyCode::Print(
                if is_capital(c) {
                    small(c)
                } else {
                    c
                },
            ),
        ),
        TerminalKey::Delete => Some(KeyCode::Delete),
        TerminalKey::Down => Some(KeyCode::Down),
        TerminalKey::End => Some(KeyCode::End),
        TerminalKey::Enter => Some(KeyCode::Enter),
        TerminalKey::Esc => Some(KeyCode::Esc),
        TerminalKey::Home => Some(KeyCode::Home),
        TerminalKey::Insert => Some(KeyCode::Insert),
        TerminalKey::Left => Some(KeyCode::Left),
        TerminalKey::PageDown => Some(KeyCode::PageDown),
        TerminalKey::PageUp => Some(KeyCode::PageUp),
        TerminalKey::Right => Some(KeyCode::Right),
        TerminalKey::Tab => Some(KeyCode::Tab),
        TerminalKey::Up => Some(KeyCode::Up),
        TerminalKey::Other => None,
    }
}

/// The key of the resolver for a terminal key and its modifiers, if it has
/// one. A capital letter is its small letter with Shift, whether or not the
/// terminal reported Shift.
pub open spec fn key_of(key: TerminalKey, alt: bool, ctrl: bool, shift: bool) -> Option<Key> {
    match code_of(key) {
        Some(code) => Some(
            Key {
                code,
                alt,
                ctrl,
                shift: shift || (key matches TerminalKey::Char(c) && is_capital(c)),
            },
        ),
        None => None,
    }
}

/// The key of the resolver for a terminal key and its modifiers.
pub fn to_key(key: TerminalKey, alt: bool, ctrl: bool, shift: bool) -> (converted: Option<Key>)
    ensures
        converted == key_of(key, alt, ctrl, shift),
{
    let code = match key {
        TerminalKey::Backspace => KeyCode::Backspace,
        TerminalKey::Char(c) => {
            if 'A' <= c && c <= 'Z' {
                return Some(
                    Key { code: KeyCode::Print(((c as u8) + 32) as char), alt, ctrl, shift: true },
                );
            }
            KeyCode::Print(c)
        },
        TerminalKey::Delete => KeyCode::Delete,
        TerminalKey::Down => KeyCode::Down,
        TerminalKey::End => KeyCode::End,
        TerminalKey::Enter => KeyCode::Enter,
        TerminalKey::Esc => KeyCode::Esc,
        TerminalKey::Home => KeyCode::Home,
        TerminalKey::Insert => KeyCode::Insert,
        TerminalKey::Left => KeyCode::Left,
        TerminalKey::PageDown => KeyCode::PageDown,
        TerminalKey::PageUp => KeyCode::PageUp,
        TerminalKey::Right => KeyCode::Right,
        TerminalKey::Tab => KeyCode::Tab,
        TerminalKey::Up => KeyCode::Up,
        TerminalKey::Other => {
            return None;
        },
    };
    Some(Key { code, alt, ctrl, shift })
}

} // verus!
