use drop_term::keys::{key_to_bytes, shortcut, Key, Modifiers, NamedKey, Shortcut};

const NONE: Modifiers = Modifiers { control: false, alt: false, shift: false };
const CTRL: Modifiers = Modifiers { control: true, alt: false, shift: false };
const ALT: Modifiers = Modifiers { control: false, alt: true, shift: false };
const CTRL_ALT: Modifiers = Modifiers { control: true, alt: true, shift: false };
const CTRL_SHIFT: Modifiers = Modifiers { control: true, alt: false, shift: true };

fn character(text: &str) -> Key {
    Key::Character(text.to_string())
}

#[test]
fn named_keys_send_their_sequences() {
    let text = Some("ignored".to_string());
    let sent = |key: NamedKey| key_to_bytes(&Key::Named(key), NONE, &text);
    assert_eq!(sent(NamedKey::Enter), b"\r".to_vec());
    assert_eq!(sent(NamedKey::Tab), b"\t".to_vec());
    assert_eq!(sent(NamedKey::Backspace), vec![0x7f]);
    assert_eq!(sent(NamedKey::Escape), vec![0x1b]);
    assert_eq!(sent(NamedKey::ArrowUp), b"\x1b[A".to_vec());
    assert_eq!(sent(NamedKey::ArrowDown), b"\x1b[B".to_vec());
    assert_eq!(sent(NamedKey::ArrowRight), b"\x1b[C".to_vec());
    assert_eq!(sent(NamedKey::ArrowLeft), b"\x1b[D".to_vec());
}

#[test]
fn other_keys_send_their_text() {
    let text = Some("é".to_string());
    assert_eq!(key_to_bytes(&character("é"), NONE, &text), "é".as_bytes().to_vec());
    assert_eq!(key_to_bytes(&Key::Named(NamedKey::Other), NONE, &text), "é".as_bytes().to_vec());
    assert_eq!(key_to_bytes(&Key::Unidentified, NONE, &None), Vec::<u8>::new());
    assert_eq!(key_to_bytes(&character("x"), NONE, &None), Vec::<u8>::new());
}

#[test]
fn control_letters_send_control_codes() {
    assert_eq!(key_to_bytes(&character("a"), CTRL, &None), vec![1]);
    assert_eq!(key_to_bytes(&character("C"), CTRL, &None), vec![3]);
    assert_eq!(key_to_bytes(&character("z"), CTRL, &None), vec![26]);
    assert_eq!(key_to_bytes(&character("_"), CTRL, &None), vec![0x1f]);
    assert_eq!(key_to_bytes(&character("-"), CTRL, &None), vec![0x1f]);
    let digit = Some("1".to_string());
    assert_eq!(key_to_bytes(&character("1"), CTRL, &digit), b"1".to_vec());
    assert_eq!(key_to_bytes(&character(""), CTRL, &digit), b"1".to_vec());
}

#[test]
fn alt_sends_readline_movements() {
    assert_eq!(key_to_bytes(&character("f"), ALT, &None), b"\x1bf".to_vec());
    assert_eq!(key_to_bytes(&character("B"), ALT, &None), b"\x1bb".to_vec());
    assert_eq!(key_to_bytes(&character("d"), ALT, &None), b"\x1bd".to_vec());
    assert_eq!(key_to_bytes(&character("."), ALT, &None), b"\x1b.".to_vec());
    let text = Some("x".to_string());
    assert_eq!(key_to_bytes(&character("x"), ALT, &text), b"x".to_vec());
    assert_eq!(key_to_bytes(&character("f"), CTRL_ALT, &None), vec![6]);
}

#[test]
fn shortcuts_are_recognised() {
    let expected = [
        ("o", Shortcut::SplitHorizontal),
        ("E", Shortcut::SplitVertical),
        ("q", Shortcut::ClosePane),
        ("Z", Shortcut::NextPane),
        ("x", Shortcut::PreviousPane),
        ("T", Shortcut::NewTab),
        ("w", Shortcut::CloseTab),
        ("P", Shortcut::TogglePin),
        ("c", Shortcut::Copy),
        ("V", Shortcut::Paste),
    ];
    for (text, wanted) in expected {
        assert_eq!(shortcut(&character(text), CTRL_SHIFT), Some(wanted));
        assert_eq!(shortcut(&character(text), CTRL), None);
    }
    assert_eq!(shortcut(&character("a"), CTRL_SHIFT), None);
    assert_eq!(shortcut(&character("oo"), CTRL_SHIFT), None);
    assert_eq!(shortcut(&character(""), CTRL_SHIFT), None);
    let tab = Key::Named(NamedKey::Tab);
    assert_eq!(shortcut(&tab, CTRL), Some(Shortcut::NextTab));
    assert_eq!(shortcut(&tab, CTRL_SHIFT), Some(Shortcut::PreviousTab));
    assert_eq!(shortcut(&tab, NONE), None);
    assert_eq!(shortcut(&Key::Named(NamedKey::F12), NONE), Some(Shortcut::TogglePopup));
    assert_eq!(shortcut(&Key::Named(NamedKey::F12), CTRL_SHIFT), Some(Shortcut::TogglePopup));
}
