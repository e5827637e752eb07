//! What each key does.

use crate::action::ActionView;
use crate::keys::{Key, Modifiers, NamedKey, Shortcut};
use crate::message::Message;
use crate::pane::SplitDirection;
use crate::state::{AppState, Surroundings};
use crate::terminal::CommandView;
use vstd::prelude::*;

verus! {

/// Whether `bytes` are the text that a key press types, in UTF-8, or none where it
/// types none.
pub open spec fn is_typed(bytes: Seq<u8>, typed: Option<String>) -> bool {
    match typed {
        Some(text) => bytes == vstd::utf8::encode_utf8(text@),
        None => bytes.len() == 0,
    }
}

/// Without `Ctrl` and `Alt`, a key that stands for text, has no name of its own, or
/// has a name without a sequence, sends exactly the text that it types, whatever
/// that is.
pub proof fn law_typed_text_is_sent(key: Key, modifiers: Modifiers, typed: Option<String>)
    requires
        !modifiers.control,
        !modifiers.alt,
        key is Character || key is Unidentified || key == Key::Named(NamedKey::Other) || key
            == Key::Named(NamedKey::F12),
    ensures
        is_typed(crate::keys::key_bytes(key, modifiers, typed), typed),
{
}

/// A key that stands for no text sends the text that it types under any modifiers,
/// unless it has a sequence of its own.
pub proof fn law_modifiers_change_characters_only(
    key: Key,
    modifiers: Modifiers,
    typed: Option<String>,
)
    requires
        key is Unidentified || key == Key::Named(NamedKey::Other) || key == Key::Named(
            NamedKey::F12,
        ) || (key matches Key::Character(text) && text@.len() == 0),
    ensures
        is_typed(crate::keys::key_bytes(key, modifiers, typed), typed),
{
}

/// Keys with a sequence of their own send it, whatever else is held or typed.
pub proof fn law_named_keys_send_their_sequences(modifiers: Modifiers, typed: Option<String>)
    ensures
        crate::keys::key_bytes(Key::Named(NamedKey::Enter), modifiers, typed) == seq![0x0du8],
        crate::keys::key_bytes(Key::Named(NamedKey::Tab), modifiers, typed) == seq![0x09u8],
        crate::keys::key_bytes(Key::Named(NamedKey::Backspace), modifiers, typed) == seq![0x7fu8],
        crate::keys::key_bytes(Key::Named(NamedKey::Escape), modifiers, typed) == seq![0x1bu8],
        crate::keys::key_bytes(Key::Named(NamedKey::ArrowUp), modifiers, typed) == seq![
            0x1bu8,
            0x5bu8,
            0x41u8,
        ],
        crate::keys::key_bytes(Key::Named(NamedKey::ArrowDown), modifiers, typed) == seq![
            0x1bu8,
            0x5bu8,
            0x42u8,
        ],
        crate::keys::key_bytes(Key::Named(NamedKey::ArrowRight), modifiers, typed) == seq![
            0x1bu8,
            0x5bu8,
            0x43u8,
        ],
        crate::keys::key_bytes(Key::Named(NamedKey::ArrowLeft), modifiers, typed) == seq![
            0x1bu8,
            0x5bu8,
            0x44u8,
        ],
{
}

/// With `Ctrl`, whatever else is held, a key whose text begins with a letter sends
/// the letter's place in the alphabet, one whose text begins with an underscore or a
/// hyphen sends the undo code, and any other sends what it types.
pub proof fn law_control_sends_codes(text: String, modifiers: Modifiers, typed: Option<String>)
    requires
        modifiers.control,
        text@.len() > 0,
    ensures
        ({
            let c = text@[0];
            let bytes = crate::keys::key_bytes(Key::Character(text), modifiers, typed);
            &&& 'a' <= c <= 'z' ==> bytes.len() == 1 && bytes[0] == c as int - 'a' as int + 1
            &&& 'A' <= c <= 'Z' ==> bytes.len() == 1 && bytes[0] == c as int - 'A' as int + 1
            &&& c == '_' || c == '-' ==> bytes == seq![0x1fu8]
            &&& !('a' <= c <= 'z' || 'A' <= c <= 'Z' || c == '_' || c == '-') ==> is_typed(
                bytes,
                typed,
            )
        }),
{
}

/// With `Alt` and without `Ctrl`, a key whose text begins with `f`, `b`, `d` or a
/// full stop sends `ESC` and that character in lower case, and any other sends what
/// it types.
pub proof fn law_alt_sends_escapes(text: String, modifiers: Modifiers, typed: Option<String>)
    requires
        modifiers.alt,
        !modifiers.control,
        text@.len() > 0,
    ensures
        ({
            let c = text@[0];
            let bytes = crate::keys::key_bytes(Key::Character(text), modifiers, typed);
            &&& c == 'f' || c == 'F' ==> bytes == seq![0x1bu8, 0x66u8]
            &&& c == 'b' || c == 'B' ==> bytes == seq![0x1bu8, 0x62u8]
            &&& c == 'd' || c == 'D' ==> bytes == seq![0x1bu8, 0x64u8]
            &&& c == '.' ==> bytes == seq![0x1bu8, 0x2eu8]
            &&& !(c == 'f' || c == 'F' || c == 'b' || c == 'B' || c == 'd' || c == 'D' || c == '.')
                ==> is_typed(bytes, typed)
        }),
{
}

/// Whether a text is just the one letter, in either case.
pub open spec fn is_letter(text: Seq<char>, lower: char, upper: char) -> bool {
    text.len() == 1 && (text[0] == lower || text[0] == upper)
}

/// The shortcuts of letters are these, in either case, with `Ctrl` and `Shift`, and
/// no others.
pub proof fn law_letter_shortcuts(text: String, modifiers: Modifiers)
    ensures
        ({
            let t = text@;
            let held = modifiers.control && modifiers.shift;
            let found = crate::keys::shortcut_of(Key::Character(text), modifiers);
            &&& found == Some(Shortcut::SplitHorizontal) <==> held && is_letter(t, 'o', 'O')
            &&& found == Some(Shortcut::SplitVertical) <==> held && is_letter(t, 'e', 'E')
            &&& found == Some(Shortcut::ClosePane) <==> held && is_letter(t, 'q', 'Q')
            &&& found == Some(Shortcut::NewTab) <==> held && is_letter(t, 't', 'T')
            &&& found == Some(Shortcut::CloseTab) <==> held && is_letter(t, 'w', 'W')
            &&& found == Some(Shortcut::TogglePin) <==> held && is_letter(t, 'p', 'P')
            &&& found == Some(Shortcut::Copy) <==> held && is_letter(t, 'c', 'C')
            &&& found == Some(Shortcut::Paste) <==> held && is_letter(t, 'v', 'V')
            &&& found == Some(Shortcut::NextPane) <==> held && is_letter(t, 'z', 'Z')
            &&& found == Some(Shortcut::PreviousPane) <==> held && is_letter(t, 'x', 'X')
            &&& found != Some(Shortcut::NextTab)
            &&& found != Some(Shortcut::PreviousTab)
            &&& found != Some(Shortcut::TogglePopup)
        }),
{
}

/// Of the keys with names, only `F12`, and Tab with `Ctrl`, are shortcuts.
pub proof fn law_named_shortcuts(key: NamedKey, modifiers: Modifiers)
    ensures
        ({
            let found = crate::keys::shortcut_of(Key::Named(key), modifiers);
            &&& key is F12 ==> found == Some(Shortcut::TogglePopup)
            &&& key is Tab && modifiers.control && !modifiers.shift ==> found == Some(
                Shortcut::NextTab,
            )
            &&& key is Tab && modifiers.control && modifiers.shift ==> found == Some(
                Shortcut::PreviousTab,
            )
            &&& key is Tab && !modifiers.control ==> found is None
            &&& !(key is F12) && !(key is Tab) ==> found is None
        }),
        crate::keys::shortcut_of(Key::Unidentified, modifiers) is None,
{
}

/// A key press that is no shortcut sends its bytes to the terminal that has the
/// focus, changes nothing, and asks for nothing else. Without such a terminal, or
/// without bytes, it asks for nothing at all.
pub proof fn law_other_keys_are_input(
    s: AppState,
    key: Key,
    modifiers: Modifiers,
    typed: Option<String>,
    around: Surroundings,
)
    requires
        crate::keys::shortcut_of(key, modifiers) is None,
    ensures
        ({
            let step = s.step(Message::KeyPressed(key, modifiers, typed), around);
            let bytes = crate::keys::key_bytes(key, modifiers, typed);
            let heard = 0 <= s.active_tab < s.tabs.len()
                && s.tabs[s.active_tab].panes.contains_key(s.tabs[s.active_tab].active_pane);
            &&& step.state == s
            &&& heard && bytes.len() > 0 ==> step.actions == seq![
                ActionView::Terminal(
                    s.tabs[s.active_tab].active_pane,
                    CommandView::Write(bytes),
                ),
            ]
            &&& !heard || bytes.len() == 0 ==> step.actions.len() == 0
        }),
{
}

/// A key press that is a shortcut does what the message of the same name does. The
/// ones that close do so to the focused pane and to the active tab.
pub proof fn law_shortcuts_are_messages(
    s: AppState,
    key: Key,
    modifiers: Modifiers,
    typed: Option<String>,
    around: Surroundings,
)
    requires
        s.wf(),
    ensures
        ({
            let found = crate::keys::shortcut_of(key, modifiers);
            let step = s.step(Message::KeyPressed(key, modifiers, typed), around);
            &&& found == Some(Shortcut::TogglePopup) ==> step == s.step(
                Message::TogglePopup,
                around,
            )
            &&& found == Some(Shortcut::SplitHorizontal) ==> step == s.step(
                Message::SplitPane(SplitDirection::Horizontal),
                around,
            )
            &&& found == Some(Shortcut::SplitVertical) ==> step == s.step(
                Message::SplitPane(SplitDirection::Vertical),
                around,
            )
            &&& found == Some(Shortcut::ClosePane) && s.tabs.len() > 0 ==> step == s.step(
                Message::ClosePane(s.tabs[s.active_tab].active_pane),
                around,
            )
            &&& found == Some(Shortcut::ClosePane) && s.tabs.len() == 0 ==> step.state == s
                && step.actions.len() == 0
            &&& found == Some(Shortcut::NewTab) ==> step == s.step(Message::NewTab, around)
            &&& found == Some(Shortcut::CloseTab) ==> step == s.step(
                Message::CloseTab(s.active_tab as usize),
                around,
            )
            &&& found == Some(Shortcut::TogglePin) ==> step == s.step(Message::TogglePin, around)
            &&& found == Some(Shortcut::Copy) ==> step == s.step(Message::CopySelection, around)
            &&& found == Some(Shortcut::Paste) ==> step == s.step(Message::PasteClipboard, around)
            &&& found == Some(Shortcut::NextPane) ==> step == s.step(
                Message::CyclePaneNext,
                around,
            )
            &&& found == Some(Shortcut::PreviousPane) ==> step == s.step(
                Message::CyclePanePrev,
                around,
            )
            &&& found == Some(Shortcut::NextTab) ==> step == s.step(Message::CycleTabNext, around)
            &&& found == Some(Shortcut::PreviousTab) ==> step == s.step(
                Message::CycleTabPrev,
                around,
            )
        }),
{
}

} // verus!
