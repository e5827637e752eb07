//! Keyboard input: the applet's own shortcuts, and the bytes that every other
//! key press sends to a terminal.

use vstd::prelude::*;

verus! {

/// A key that is known by name.
#[derive(Debug, Clone, Copy, PartialEq, Eq, Structural)]
pub enum NamedKey {
    Enter,
    Tab,
    Backspace,
    Escape,
    ArrowUp,
    ArrowDown,
    ArrowRight,
    ArrowLeft,
    F12,
    /// Any other key with a name.
    Other,
}

/// A key, as the keyboard layout understands it.
#[derive(Debug, Clone, PartialEq, Eq)]
pub enum Key {
    Named(NamedKey),
    /// A key that stands for text.
    Character(String),
    Unidentified,
}

/// The modifier keys that are held down.
#[derive(Debug, Clone, Copy, PartialEq, Eq, Structural)]
pub struct Modifiers {
    pub control: bool,
    pub alt: bool,
    pub shift: bool,
}

/// What a shortcut asks for.
#[derive(Debug, Clone, Copy, PartialEq, Eq, Structural)]
pub enum Shortcut {
    SplitHorizontal,
    SplitVertical,
    ClosePane,
    NextPane,
    PreviousPane,
    NewTab,
    CloseTab,
    NextTab,
    PreviousTab,
    TogglePin,
    Copy,
    Paste,
    TogglePopup,
}

/// `c` in lower case, where it is an ASCII letter.
pub open spec fn ascii_lower(c: char) -> char {
    if 'A' <= c <= 'Z' {
        ((c as u32) + 32) as char
    } else {
        c
    }
}

/// `c` in upper case, where it is an ASCII letter.
pub open spec fn ascii_upper(c: char) -> char {
    if 'a' <= c <= 'z' {
        ((c as u32) - 32) as char
    } else {
        c
    }
}

pub open spec fn is_ascii_letter(c: char) -> bool {
    'A' <= c <= 'Z' || 'a' <= c <= 'z'
}

/// The shortcut behind `Ctrl+Shift` and a key that stands for the one character
/// `c`.
pub open spec fn letter_shortcut(c: char) -> Option<Shortcut> {
    match ascii_upper(c) {
        'O' => Some(Shortcut::SplitHorizontal),
        'E' => Some(Shortcut::SplitVertical),
        'Q' => Some(Shortcut::ClosePane),
        'T' => Some(Shortcut::NewTab),
        'W' => Some(Shortcut::CloseTab),
        'P' => Some(Shortcut::TogglePin),
        'C' => Some(Shortcut::Copy),
        'V' => Some(Shortcut::Paste),
        'Z' => Some(Shortcut::NextPane),
        'X' => Some(Shortcut::PreviousPane),
        _ => None,
    }
}

/// The shortcut that a key press is, if it is one.
pub open spec fn shortcut_of(key: Key, modifiers: Modifiers) -> Option<Shortcut> {
    match key {
        Key::Named(NamedKey::F12) => Some(Shortcut::TogglePopup),
        Key::Named(NamedKey::Tab) => if !modifiers.control {
            None
        } else if modifiers.shift {
            Some(Shortcut::PreviousTab)
        } else {
            Some(Shortcut::NextTab)
        },
        Key::Character(text) => if modifiers.control && modifiers.shift && text@.len() == 1 {
            letter_shortcut(text@[0])
        } else {
            None
        },
        _ => None,
    }
}

/// The bytes of `ESC` and a character after it.
pub open spec fn escaped(c: char) -> Seq<u8> {
    seq![0x1b, c as u8]
}

/// What `Alt` and a key that stands for `c` send, where that differs from the
/// key's text: readline's word movement, word deletion and last argument.
pub open spec fn alt_bytes(c: char) -> Option<Seq<u8>> {
    let lower = ascii_lower(c);
    if lower == 'f' || lower == 'b' || lower == 'd' || lower == '.' {
        Some(escaped(lower))
    } else {
        None
    }
}

/// What `Ctrl` and a key that stands for `c` send, where that differs from the
/// key's text: the control codes, and undo.
pub open spec fn control_bytes(c: char) -> Option<Seq<u8>> {
    if c == '_' || c == '-' {
        Some(seq![0x1f])
    } else if is_ascii_letter(c) {
        Some(seq![((ascii_upper(c) as u8) - 0x40) as u8])
    } else {
        None
    }
}

/// What a key press sends by its modifiers alone.
pub open spec fn modified_bytes(key: Key, modifiers: Modifiers) -> Option<Seq<u8>> {
    match key {
        Key::Character(text) => if text@.len() == 0 {
            None
        } else if modifiers.control {
            control_bytes(text@[0])
        } else if modifiers.alt {
            alt_bytes(text@[0])
        } else {
            None
        },
        _ => None,
    }
}

/// What a key sends when no modifier changes it.
pub open spec fn plain_bytes(key: Key, text: Option<String>) -> Seq<u8> {
    match key {
        Key::Named(NamedKey::Enter) => seq![0x0d],
        Key::Named(NamedKey::Tab) => seq![0x09],
        Key::Named(NamedKey::Backspace) => seq![0x7f],
        Key::Named(NamedKey::Escape) => seq![0x1b],
        Key::Named(NamedKey::ArrowUp) => seq![0x1b, 0x5b, 0x41],
        Key::Named(NamedKey::ArrowDown) => seq![0x1b, 0x5b, 0x42],
        Key::Named(NamedKey::ArrowRight) => seq![0x1b, 0x5b, 0x43],
        Key::Named(NamedKey::ArrowLeft) => seq![0x1b, 0x5b, 0x44],
        _ => match text {
            Some(text) => vstd::utf8::encode_utf8(text@),
            None => seq![],
        },
    }
}

/// The bytes that a key press sends to a terminal.
pub open spec fn key_bytes(key: Key, modifiers: Modifiers, text: Option<String>) -> Seq<u8> {
    match modified_bytes(key, modifiers) {
        Some(bytes) => bytes,
        None => plain_bytes(key, text),
    }
}

fn to_ascii_lower(c: char) -> (lower: char)
    ensures
        lower == ascii_lower(c),
{
    if 'A' <= c && c <= 'Z' {
        ((c as u8) + 32) as char
    } else {
        c
    }
}

fn to_ascii_upper(c: char) -> (upper: char)
    ensures
        upper == ascii_upper(c),
{
    if 'a' <= c && c <= 'z' {
        ((c as u8) - 32) as char
    } else {
        c
    }
}

/// The first character of a text.
fn first_char(text: &String) -> (first: Option<char>)
    ensures
        first == (if text@.len() == 0 {
            None::<char>
        } else {
            Some(text@[0])
        }),
{
    let mut chars = text.as_str().chars();
    chars.next()
}

/// The only character of a text that has just one.
fn only_char(text: &String) -> (only: Option<char>)
    ensures
        only == (if text@.len() == 1 {
            Some(text@[0])
        } else {
            None::<char>
        }),
{
    let mut chars = text.as_str().chars();
    let first = chars.next();
    match chars.next() {
        Some(_) => None,
        None => first,
    }
}

/// The shortcut that a key press is, if it is one.
pub fn shortcut(key: &Key, modifiers: Modifiers) -> (shortcut: Option<Shortcut>)
    ensures
        shortcut == shortcut_of(*key, modifiers),
{
    match key {
        Key::Named(NamedKey::F12) => Some(Shortcut::TogglePopup),
        Key::Named(NamedKey::Tab) => {
            if !modifiers.control {
                None
            } else if modifiers.shift {
                Some(Shortcut::PreviousTab)
            } else {
                Some(Shortcut::NextTab)
            }
        },
        Key::Character(text) => {
            if !(modifiers.control && modifiers.shift) {
                return None;
            }
            match only_char(text) {
                Some(c) => match to_ascii_upper(c) {
                    'O' => Some(Shortcut::SplitHorizontal),
                    'E' => Some(Shortcut::SplitVertical),
                    'Q' => Some(Shortcut::ClosePane),
                    'T' => Some(Shortcut::NewTab),
                    'W' => Some(Shortcut::CloseTab),
                    'P' => Some(Shortcut::TogglePin),
                    'C' => Some(Shortcut::Copy),
                    'V' => Some(Shortcut::Paste),
                    'Z' => Some(Shortcut::NextPane),
                    'X' => Some(Shortcut::PreviousPane),
                    _ => None,
                },
                None => None,
            }
        },
        _ => None,
    }
}

/// The bytes that a key press sends to a terminal. `text` is what the key press
/// types, if it types anything.
pub fn key_to_bytes(key: &Key, modifiers: Modifiers, text: &Option<String>) -> (bytes: Vec<u8>)
    ensures
        bytes@ == key_bytes(*key, modifiers, *text),
{
    if modifiers.alt && !modifiers.control {
        if let Key::Character(c) = key {
            if let Some(ch) = first_char(c) {
                let lower = to_ascii_lower(ch);
                if lower == 'f' || lower == 'b' || lower == 'd' || lower == '.' {
                    let bytes: Vec<u8> = vec![0x1b, lower as u8];
                    assert(bytes@ =~= escaped(lower));
                    return bytes;
                }
            }
        }
    }
    if modifiers.control {
        if let Key::Character(c) = key {
            if let Some(ch) = first_char(c) {
                if ch == '_' || ch == '-' {
                    return vec![0x1f];
                }
                let upper = to_ascii_upper(ch);
                if 'A' <= upper && upper <= 'Z' {
                    return vec![(upper as u8) - 0x41 + 1];
                }
            }
        }
    }
    match key {
        Key::Named(NamedKey::Enter) => vec![0x0d],
        Key::Named(NamedKey::Tab) => vec![0x09],
        Key::Named(NamedKey::Backspace) => vec![0x7f],
        Key::Named(NamedKey::Escape) => vec![0x1b],
        Key::Named(NamedKey::ArrowUp) => vec![0x1b, 0x5b, 0x41],
        Key::Named(NamedKey::ArrowDown) => vec![0x1b, 0x5b, 0x42],
        Key::Named(NamedKey::ArrowRight) => vec![0x1b, 0x5b, 0x43],
        Key::Named(NamedKey::ArrowLeft) => vec![0x1b, 0x5b, 0x44],
        _ => match text {
            Some(text) => vstd::slice::slice_to_vec(text.as_str().as_bytes()),
            None => Vec::new(),
        },
    }
}

} // verus!
