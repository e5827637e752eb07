use drop_term::config::{default_directory_color, default_user_host_color, AppConfig};
use drop_term::keys::{shortcut, Key, Modifiers, NamedKey, Shortcut};
use drop_term::message::Message;
use drop_term::preferences::{
    color_chart, hex_string, is_readable_color, keybindings_chart, parse_hex_color, view,
    ColorTarget, PALETTE,
};

#[test]
fn colors_are_written_in_upper_case() {
    assert_eq!(hex_string((0, 205, 0)), "#00CD00");
    assert_eq!(hex_string((0, 0, 238)), "#0000EE");
    assert_eq!(hex_string((255, 18, 160)), "#FF12A0");
}

#[test]
fn colors_are_read_in_either_case() {
    assert_eq!(parse_hex_color("#00cd00"), Some((0, 205, 0)));
    assert_eq!(parse_hex_color("0000EE"), Some((0, 0, 238)));
    assert_eq!(parse_hex_color("  ##ff12a0\t"), Some((255, 18, 160)));
    assert_eq!(parse_hex_color("\u{3000}#ff12a0\u{a0}"), Some((255, 18, 160)));
    assert_eq!(parse_hex_color("+f+0+1"), Some((15, 0, 1)));
    assert_eq!(parse_hex_color(" ###aBcDeF "), parse_hex_color("AbCdEf"));
    assert_eq!(parse_hex_color("aBcDeF"), Some((0xab, 0xcd, 0xef)));
}

#[test]
fn other_texts_are_no_colors() {
    assert_eq!(parse_hex_color(""), None);
    assert_eq!(parse_hex_color("#"), None);
    assert_eq!(parse_hex_color("#12345"), None);
    assert_eq!(parse_hex_color("#1234567"), None);
    assert_eq!(parse_hex_color("#12345g"), None);
    assert_eq!(parse_hex_color("# 12345"), None);
    assert_eq!(parse_hex_color("-1-1-1"), None);
    assert_eq!(parse_hex_color("1+1+1+"), None);
    assert_eq!(parse_hex_color("é1234"), None);
    assert_eq!(parse_hex_color("12é34"), None);
    assert_eq!(parse_hex_color("zz€1"), None);
}

#[test]
fn texts_cut_inside_a_character_are_unreadable() {
    assert!(!is_readable_color("a€bc"));
    assert!(!is_readable_color("#€abc"));
    assert!(!is_readable_color("12€1"));
    assert!(is_readable_color("zz€1"));
    assert!(is_readable_color("é1234"));
    assert!(is_readable_color("€"));
    assert!(is_readable_color("#123456"));
}

#[test]
fn every_written_color_is_read_back() {
    for n in 0..=255u8 {
        let color = (n, 255 - n, n.wrapping_mul(7));
        assert_eq!(parse_hex_color(&hex_string(color)), Some(color));
    }
}

#[test]
fn chart_offers_the_palette_in_rows_of_seven() {
    let chart = color_chart(ColorTarget::UserHost, (0, 205, 0));
    assert_eq!(chart.len(), 8);
    let lengths: Vec<usize> = chart.iter().map(|row| row.len()).collect();
    assert_eq!(lengths, vec![7, 7, 7, 7, 7, 7, 7, 6]);
    let colors: Vec<(u8, u8, u8)> = chart.iter().flatten().map(|s| s.color).collect();
    assert_eq!(colors, PALETTE.to_vec());
    let selected: Vec<(u8, u8, u8)> =
        chart.iter().flatten().filter(|s| s.is_selected).map(|s| s.color).collect();
    assert_eq!(selected, vec![(0, 205, 0)]);
    for swatch in chart.iter().flatten() {
        match &swatch.pick {
            Message::UserHostColorInput(text) => {
                assert_eq!(parse_hex_color(text), Some(swatch.color))
            }
            other => panic!("unexpected {:?}", other),
        }
    }
    for color in PALETTE {
        let chart = color_chart(ColorTarget::Directory, color);
        assert_eq!(chart.iter().flatten().filter(|s| s.is_selected).count(), 1);
    }
    let other = color_chart(ColorTarget::Directory, (1, 2, 3));
    assert!(other.iter().flatten().all(|s| !s.is_selected));
    assert!(matches!(&other[7][5].pick, Message::DirectoryColorInput(t) if t == "#FF1493"));
}

#[test]
fn panel_shows_the_settings() {
    let config = AppConfig { user_host_color: (1, 2, 3), ..AppConfig::default() };
    let panel = view(&config);
    assert_eq!(panel.title, "preferences");
    assert_eq!(panel.keybindings_title, "keybindings");
    assert_eq!(panel.user_host.title, "user-host-color");
    assert_eq!(panel.user_host.placeholder, "#00CD00");
    assert_eq!(panel.user_host.value, "#010203");
    assert_eq!(panel.user_host.color, (1, 2, 3));
    assert_eq!(panel.directory.title, "directory-color");
    assert_eq!(panel.directory.placeholder, "#0000EE");
    assert_eq!(panel.directory.value, "#0000EE");
    assert_eq!(panel.directory.target, ColorTarget::Directory);
    assert_eq!(panel.keybindings.len(), 13);
    assert_eq!(hex_string(default_user_host_color()), panel.user_host.placeholder);
    assert_eq!(hex_string(default_directory_color()), panel.directory.placeholder);
}

#[test]
fn listed_shortcuts_work() {
    let wanted = [
        ("kb-split-h", Shortcut::SplitHorizontal),
        ("kb-split-v", Shortcut::SplitVertical),
        ("kb-close-pane", Shortcut::ClosePane),
        ("kb-next-pane", Shortcut::NextPane),
        ("kb-prev-pane", Shortcut::PreviousPane),
        ("kb-new-tab", Shortcut::NewTab),
        ("kb-close-tab", Shortcut::CloseTab),
        ("kb-next-tab", Shortcut::NextTab),
        ("kb-prev-tab", Shortcut::PreviousTab),
        ("kb-toggle-pin", Shortcut::TogglePin),
        ("kb-copy", Shortcut::Copy),
        ("kb-paste", Shortcut::Paste),
        ("kb-hide", Shortcut::TogglePopup),
    ];
    let rows = keybindings_chart();
    assert_eq!(rows.len(), wanted.len());
    for (row, (description, action)) in rows.iter().zip(wanted) {
        assert_eq!(row.description, description);
        let modifiers = Modifiers {
            control: row.shortcut.contains("Ctrl+"),
            alt: false,
            shift: row.shortcut.contains("Shift+"),
        };
        let key = match row.shortcut.rsplit('+').next() {
            Some("Tab") => Key::Named(NamedKey::Tab),
            Some("F12") => Key::Named(NamedKey::F12),
            Some(letter) => Key::Character(letter.to_string()),
            None => unreachable!(),
        };
        assert_eq!(shortcut(&key, modifiers), Some(action));
    }
}

#[test]
fn entered_text_goes_to_its_setting() {
    let text = "x".to_string();
    assert!(matches!(
        ColorTarget::UserHost.input(text.clone()),
        Message::UserHostColorInput(t) if t == "x"
    ));
    assert!(matches!(
        ColorTarget::Directory.input(text),
        Message::DirectoryColorInput(t) if t == "x"
    ));
}
