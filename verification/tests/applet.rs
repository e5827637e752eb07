use drop_term::action::Action;
use drop_term::app::{resize_save_due, App};
use drop_term::config::AppConfig;
use drop_term::keys::{Key, Modifiers, NamedKey};
use drop_term::message::Message;
use drop_term::pane::SplitDirection;
use drop_term::state::{Surroundings, SAVE_DELAY};
use drop_term::terminal::TermCommand;
use drop_term::view::{surface_placement, KeyboardUse, Label, SurfaceLayer, WindowView};

const LATER: u64 = 10_000_000_000;

fn around(now: u64, fresh_window: u64) -> Surroundings {
    Surroundings { now, fresh_window, focused_mode: 0 }
}

fn tell(app: &mut App, message: Message) -> Vec<Action> {
    assert!(app.can_take(&message));
    app.update(message, around(LATER, 99))
}

fn press(app: &mut App, text: &str, control: bool, shift: bool) -> Vec<Action> {
    let modifiers = Modifiers { control, alt: false, shift };
    let key = Key::Character(text.to_string());
    tell(app, Message::KeyPressed(key, modifiers, Some(text.to_string())))
}

/// An applet whose drop-down is shown, with one tab of one pane.
fn shown() -> App {
    let mut app = App::init(AppConfig::default());
    app.update(Message::TogglePopup, around(0, 1));
    app
}

fn grid(app: &App) -> Vec<Vec<u64>> {
    match app.view_window() {
        WindowView::Panes { grid, .. } => {
            grid.iter()
                .map(|column| column.iter().map(|cell| cell.as_ref().unwrap().id).collect())
                .collect()
        }
        other => panic!("unexpected {:?}", other),
    }
}

fn focus(app: &App) -> Option<u64> {
    app.active_tab().map(|tab| tab.active_pane())
}

fn active(app: &App) -> Option<usize> {
    app.tab_bar().tabs.iter().position(|tab| tab.is_active)
}

fn numbers(app: &App) -> Vec<i32> {
    app.tab_bar()
        .tabs
        .iter()
        .map(|tab| match tab.title.label {
            Label::TabTitle(number) => number,
            other => panic!("unexpected {:?}", other),
        })
        .collect()
}

fn shutdown(id: u64) -> Action {
    Action::Terminal(id, TermCommand::Shutdown)
}

fn size(app: &App, id: u64) -> (u16, u16) {
    app.active_tab().unwrap().terminal(id).unwrap().last_size
}

#[test]
fn first_toggle_opens_a_tab() {
    let mut app = App::init(AppConfig::default());
    assert!(matches!(app.view_window(), WindowView::Empty));
    assert_eq!(app.window_id(), None);
    let actions = app.update(Message::TogglePopup, around(5, 1));
    assert_eq!(
        actions,
        vec![
            Action::SpawnTerminal { pane: 0, cols: 100, rows: 26 },
            Action::OpenSurface { window: 1, width: 900, height: 500 },
        ]
    );
    assert_eq!(grid(&app), vec![vec![0]]);
    assert_eq!(numbers(&app), vec![1]);
    assert_eq!(app.window_id(), Some(1));
    assert_eq!(app.focused_pane(), Some(0));
}

#[test]
fn toggling_hides_and_shows_again() {
    let mut app = shown();
    assert_eq!(tell(&mut app, Message::TogglePopup), vec![Action::DestroySurface(1)]);
    assert_eq!(app.window_id(), None);
    assert_eq!(
        tell(&mut app, Message::TogglePopup),
        vec![Action::OpenSurface { window: 99, width: 900, height: 500 }]
    );
    assert_eq!(grid(&app), vec![vec![0]]);
}

#[test]
fn f12_hides_the_popup() {
    let mut app = shown();
    let modifiers = Modifiers { control: false, alt: false, shift: false };
    let message = Message::KeyPressed(Key::Named(NamedKey::F12), modifiers, None);
    assert_eq!(tell(&mut app, message), vec![Action::DestroySurface(1)]);
}

#[test]
fn splits_share_the_window() {
    let mut app = shown();
    let actions = tell(&mut app, Message::SplitPane(SplitDirection::Horizontal));
    assert_eq!(actions[0], Action::SpawnTerminal { pane: 1, cols: 50, rows: 26 });
    assert_eq!(actions.len(), 4);
    assert!(actions[1..].iter().all(|a| matches!(a, Action::Terminal(0, _))));
    assert_eq!(grid(&app), vec![vec![0], vec![1]]);
    assert_eq!(focus(&app), Some(1));
    let actions = tell(&mut app, Message::SplitPane(SplitDirection::Vertical));
    assert_eq!(actions[0], Action::SpawnTerminal { pane: 2, cols: 50, rows: 13 });
    assert_eq!(grid(&app), vec![vec![0], vec![1, 2]]);
    tell(&mut app, Message::SelectPane(1));
    tell(&mut app, Message::SplitPane(SplitDirection::Vertical));
    assert_eq!(grid(&app), vec![vec![0], vec![1, 3, 2]]);
    assert_eq!(size(&app, 0), (50, 26));
    assert_eq!(size(&app, 2), (50, 8));
    assert_eq!(size(&app, 3), (50, 8));
}

#[test]
fn splits_stop_at_four_by_four() {
    let mut app = shown();
    for _ in 0..10 {
        tell(&mut app, Message::SplitPane(SplitDirection::Horizontal));
    }
    assert_eq!(grid(&app), vec![vec![0], vec![1], vec![2], vec![3]]);
    assert!(tell(&mut app, Message::SplitPane(SplitDirection::Horizontal)).is_empty());
    for _ in 0..10 {
        tell(&mut app, Message::SplitPane(SplitDirection::Vertical));
    }
    assert_eq!(grid(&app)[3].len(), 4);
    let bar = app.tab_bar();
    assert!(!bar.controls[0].enabled());
    assert!(!bar.controls[1].enabled());
    assert!(bar.controls[2].enabled());
    tell(&mut app, Message::SelectPane(0));
    assert!(app.tab_bar().controls[1].enabled());
}

#[test]
fn closing_a_split_gives_the_grid_back() {
    let mut app = shown();
    tell(&mut app, Message::SplitPane(SplitDirection::Vertical));
    let before = grid(&app);
    tell(&mut app, Message::SelectPane(0));
    tell(&mut app, Message::SplitPane(SplitDirection::Vertical));
    assert_eq!(grid(&app), vec![vec![0, 2, 1]]);
    let actions = tell(&mut app, Message::ClosePane(2));
    assert_eq!(actions[0], shutdown(2));
    assert_eq!(grid(&app), before);
    assert_eq!(focus(&app), Some(0));
    tell(&mut app, Message::SplitPane(SplitDirection::Horizontal));
    tell(&mut app, Message::ClosePane(3));
    assert_eq!(grid(&app), before);
}

#[test]
fn closing_another_pane_keeps_the_focus() {
    let mut app = shown();
    tell(&mut app, Message::SplitPane(SplitDirection::Horizontal));
    tell(&mut app, Message::SplitPane(SplitDirection::Horizontal));
    tell(&mut app, Message::ClosePane(0));
    assert_eq!(grid(&app), vec![vec![1], vec![2]]);
    assert_eq!(focus(&app), Some(2));
    assert!(tell(&mut app, Message::ClosePane(0)).is_empty());
}

#[test]
fn closing_the_last_pane_closes_the_tab() {
    let mut app = shown();
    tell(&mut app, Message::NewTab);
    let actions = tell(&mut app, Message::ClosePane(1));
    assert_eq!(actions, vec![shutdown(1)]);
    assert_eq!(numbers(&app), vec![1]);
    let actions = tell(&mut app, Message::ClosePane(0));
    assert_eq!(actions, vec![shutdown(0), Action::DestroySurface(1)]);
    assert!(matches!(app.view_window(), WindowView::Empty));
    assert_eq!(app.window_id(), None);
    let actions = tell(&mut app, Message::TogglePopup);
    assert_eq!(actions[0], Action::SpawnTerminal { pane: 2, cols: 100, rows: 26 });
}

#[test]
fn tabs_stop_at_fifteen() {
    let mut app = shown();
    for _ in 0..20 {
        tell(&mut app, Message::NewTab);
    }
    assert_eq!(numbers(&app), (1..=15).collect::<Vec<i32>>());
    assert_eq!(active(&app), Some(14));
    assert!(tell(&mut app, Message::NewTab).is_empty());
}

#[test]
fn closing_a_tab_keeps_the_active_one() {
    let mut app = shown();
    for _ in 0..4 {
        tell(&mut app, Message::NewTab);
    }
    tell(&mut app, Message::SelectTab(2));
    assert_eq!(grid(&app), vec![vec![2]]);
    tell(&mut app, Message::CloseTab(0));
    assert_eq!((active(&app), grid(&app)), (Some(1), vec![vec![2]]));
    tell(&mut app, Message::CloseTab(3));
    assert_eq!((active(&app), grid(&app)), (Some(1), vec![vec![2]]));
    tell(&mut app, Message::CloseTab(1));
    assert_eq!((active(&app), grid(&app)), (Some(1), vec![vec![3]]));
    tell(&mut app, Message::CloseTab(1));
    assert_eq!((active(&app), grid(&app)), (Some(0), vec![vec![1]]));
    assert_eq!(numbers(&app), vec![1]);
    assert!(tell(&mut app, Message::CloseTab(1)).is_empty());
}

#[test]
fn closing_a_tab_ends_all_its_terminals() {
    let mut app = shown();
    tell(&mut app, Message::SplitPane(SplitDirection::Horizontal));
    tell(&mut app, Message::SplitPane(SplitDirection::Vertical));
    tell(&mut app, Message::NewTab);
    let actions = tell(&mut app, Message::CloseTab(0));
    assert_eq!(actions, vec![shutdown(0), shutdown(1), shutdown(2)]);
    assert_eq!(app.subscription(), vec![3]);
}

#[test]
fn tabs_cycle_both_ways() {
    let mut app = shown();
    tell(&mut app, Message::NewTab);
    tell(&mut app, Message::NewTab);
    tell(&mut app, Message::CycleTabNext);
    assert_eq!(active(&app), Some(0));
    tell(&mut app, Message::CycleTabPrev);
    assert_eq!(active(&app), Some(2));
    tell(&mut app, Message::CycleTabPrev);
    assert_eq!(active(&app), Some(1));
    let mut none = App::init(AppConfig::default());
    assert!(tell(&mut none, Message::CycleTabNext).is_empty());
    assert!(tell(&mut none, Message::CycleTabPrev).is_empty());
}

#[test]
fn panes_cycle_column_by_column() {
    let mut app = shown();
    tell(&mut app, Message::SplitPane(SplitDirection::Vertical));
    tell(&mut app, Message::SplitPane(SplitDirection::Horizontal));
    assert_eq!(grid(&app), vec![vec![0, 1], vec![2]]);
    let mut seen = Vec::new();
    for _ in 0..4 {
        tell(&mut app, Message::CyclePaneNext);
        seen.push(focus(&app).unwrap());
    }
    assert_eq!(seen, vec![0, 1, 2, 0]);
    tell(&mut app, Message::CyclePanePrev);
    assert_eq!(focus(&app), Some(2));
}

#[test]
fn keys_go_to_the_focused_terminal() {
    let mut app = shown();
    assert_eq!(
        press(&mut app, "a", false, false),
        vec![Action::Terminal(0, TermCommand::Write(b"a".to_vec()))]
    );
    assert_eq!(
        press(&mut app, "r", true, false),
        vec![Action::Terminal(0, TermCommand::Write(vec![18]))]
    );
    assert!(press(&mut app, "", false, false).is_empty());
    tell(&mut app, Message::SelectPane(77));
    assert_eq!(app.focused_pane(), None);
    assert!(press(&mut app, "a", false, false).is_empty());
    let mut none = App::init(AppConfig::default());
    assert!(press(&mut none, "a", false, false).is_empty());
}

#[test]
fn shortcut_keys_act() {
    let mut app = shown();
    press(&mut app, "O", true, true);
    assert_eq!(grid(&app), vec![vec![0], vec![1]]);
    press(&mut app, "e", true, true);
    assert_eq!(grid(&app), vec![vec![0], vec![1, 2]]);
    press(&mut app, "X", true, true);
    assert_eq!(focus(&app), Some(1));
    press(&mut app, "Z", true, true);
    assert_eq!(focus(&app), Some(2));
    assert_eq!(press(&mut app, "Q", true, true)[0], shutdown(2));
    press(&mut app, "T", true, true);
    assert_eq!(active(&app), Some(1));
    assert_eq!(press(&mut app, "W", true, true)[0], shutdown(3));
    assert!(press(&mut app, "P", true, true).is_empty());
    assert!(app.is_pinned());
    assert_eq!(press(&mut app, "C", true, true), vec![Action::ReadSelection(0)]);
    assert_eq!(press(&mut app, "V", true, true), vec![Action::ReadClipboard]);
}

#[test]
fn clipboard_round() {
    let mut app = shown();
    assert_eq!(
        tell(&mut app, Message::SelectionRead(Some("x".to_string()))),
        vec![Action::WriteClipboard("x".to_string())]
    );
    assert!(tell(&mut app, Message::SelectionRead(None)).is_empty());
    assert!(tell(&mut app, Message::ClipboardPasted(None)).is_empty());
    let pasted = Message::ClipboardPasted(Some("ls".to_string()));
    assert_eq!(
        app.update(pasted.clone(), around(LATER, 9)),
        vec![Action::Terminal(0, TermCommand::Write(b"ls".to_vec()))]
    );
    let bracketed = Surroundings { focused_mode: 1 << 4, ..around(LATER, 9) };
    assert_eq!(
        app.update(pasted, bracketed),
        vec![Action::Terminal(0, TermCommand::Write(b"\x1b[200~ls\x1b[201~".to_vec()))]
    );
}

#[test]
fn focus_loss_hides_unless_pinned() {
    let mut app = shown();
    let lost = Message::SurfaceUnfocused(1);
    assert!(app.update(lost.clone(), around(199_999_999, 9)).is_empty());
    assert!(app.update(Message::SurfaceUnfocused(2), around(LATER, 9)).is_empty());
    tell(&mut app, Message::TogglePin);
    assert!(app.update(lost.clone(), around(LATER, 9)).is_empty());
    tell(&mut app, Message::TogglePin);
    assert_eq!(app.update(lost, around(200_000_000, 9)), vec![Action::DestroySurface(1)]);
    assert_eq!(app.window_id(), None);
}

#[test]
fn closed_surface_is_forgotten() {
    let mut app = shown();
    assert!(tell(&mut app, Message::SurfaceClosed(2)).is_empty());
    assert_eq!(app.window_id(), Some(1));
    assert!(tell(&mut app, Message::SurfaceClosed(1)).is_empty());
    assert_eq!(app.window_id(), None);
}

#[test]
fn resize_is_taken_over_and_saved() {
    let mut app = shown();
    assert!(app.update(Message::Resized(1, 1800, 1000), around(299_999_999, 9)).is_empty());
    assert!(app.update(Message::Resized(2, 1800, 1000), around(LATER, 9)).is_empty());
    let actions = app.update(Message::Resized(1, 1800, 100), around(300_000_000, 9));
    let config = AppConfig { window_width: 1800, window_height: 300, ..AppConfig::default() };
    assert_eq!(actions.len(), 4);
    assert_eq!(actions[3], Action::ScheduleSave { generation: 1, config });
    assert_eq!(app.config(), config);
    assert_eq!(size(&app, 0), (200, 14));
    let actions = app.update(Message::Resized(1, 1, 1), around(LATER, 9));
    let smallest = AppConfig { window_width: 500, window_height: 300, ..config };
    assert_eq!(
        actions.last(),
        Some(&Action::ScheduleSave { generation: 2, config: smallest })
    );
    assert!(!resize_save_due(2, 1));
    assert!(resize_save_due(2, 2));
}

#[test]
fn entered_colors_are_saved() {
    let mut app = shown();
    let config = AppConfig { user_host_color: (1, 2, 3), ..AppConfig::default() };
    assert_eq!(
        tell(&mut app, Message::UserHostColorInput("#010203".to_string())),
        vec![Action::SaveConfig(config)]
    );
    let config = AppConfig { directory_color: (4, 5, 6), ..config };
    assert_eq!(
        tell(&mut app, Message::DirectoryColorInput("040506".to_string())),
        vec![Action::SaveConfig(config)]
    );
    assert!(tell(&mut app, Message::UserHostColorInput("#01020".to_string())).is_empty());
    assert_eq!(app.config(), config);
    assert!(!app.can_take(&Message::UserHostColorInput("a€bc".to_string())));
    assert!(!app.can_take(&Message::DirectoryColorInput("a€bc".to_string())));
}

#[test]
fn preferences_take_the_place_of_the_panes() {
    let mut app = shown();
    tell(&mut app, Message::TogglePreferences);
    match app.view_window() {
        WindowView::Preferences { tab_bar, panel } => {
            assert_eq!(tab_bar.tabs.len(), 1);
            assert_eq!(panel.user_host.value, "#00CD00");
        }
        other => panic!("unexpected {:?}", other),
    }
    tell(&mut app, Message::TogglePreferences);
    assert_eq!(grid(&app), vec![vec![0]]);
}

#[test]
fn tab_bar_labels_mean_their_messages() {
    let mut app = shown();
    tell(&mut app, Message::NewTab);
    let bar = app.tab_bar();
    assert_eq!(bar.preferences.label.symbol(), Some("⚙"));
    assert!(matches!(bar.preferences.message, Some(Message::TogglePreferences)));
    assert!(matches!(bar.tabs[0].title.message, Some(Message::SelectTab(0))));
    assert!(matches!(bar.tabs[1].close.message, Some(Message::CloseTab(1))));
    assert_eq!(bar.tabs[1].close.label.symbol(), Some("×"));
    assert_eq!(bar.tabs[1].title.label, Label::TabTitle(2));
    assert_eq!(bar.tabs[1].title.label.symbol(), None);
    assert_eq!(bar.new_tab.label.symbol(), Some("+"));
    assert_eq!(bar.controls[0].label.symbol(), Some("↔"));
    assert_eq!(bar.controls[1].label.symbol(), Some("↕"));
    assert!(matches!(
        bar.controls[0].message,
        Some(Message::SplitPane(SplitDirection::Horizontal))
    ));
    assert!(matches!(bar.controls[1].message, Some(Message::SplitPane(SplitDirection::Vertical))));
    assert!(matches!(bar.controls[2].message, Some(Message::ClosePane(1))));
    let none = App::init(AppConfig::default()).tab_bar();
    assert_eq!(none.controls.len(), 2);
    assert!(!none.controls[0].enabled());
}

#[test]
fn pane_cells_mark_the_focus() {
    let mut app = shown();
    tell(&mut app, Message::SplitPane(SplitDirection::Vertical));
    match app.view_window() {
        WindowView::Panes { grid, user_host_color, directory_color, .. } => {
            let cells: Vec<_> = grid[0].iter().map(|cell| cell.clone().unwrap()).collect();
            assert!(!cells[0].is_active);
            assert!(cells[1].is_active);
            assert!(matches!(cells[0].press, Message::SelectPane(0)));
            assert_eq!(user_host_color, (0, 205, 0));
            assert_eq!(directory_color, (0, 0, 238));
        }
        other => panic!("unexpected {:?}", other),
    }
}

#[test]
fn updates_and_scrolls_reach_any_tab() {
    let mut app = shown();
    tell(&mut app, Message::NewTab);
    assert_eq!(
        tell(&mut app, Message::TerminalUpdated(0)),
        vec![Action::Terminal(0, TermCommand::Invalidate)]
    );
    assert!(tell(&mut app, Message::TerminalUpdated(9)).is_empty());
    assert_eq!(
        tell(&mut app, Message::PaneScroll(0, 3)),
        vec![
            Action::Terminal(0, TermCommand::ScrollDisplay(3)),
            Action::Terminal(0, TermCommand::Invalidate),
        ]
    );
    assert!(tell(&mut app, Message::PaneScroll(0, 0)).is_empty());
    assert!(tell(&mut app, Message::PaneScroll(9, 3)).is_empty());
}

#[test]
fn drawn_panes_take_over_their_size() {
    let mut app = shown();
    assert_eq!(app.measure(0, 90, 20).len(), 3);
    assert_eq!(size(&app, 0), (90, 20));
    assert!(app.measure(0, 90, 20).is_empty());
    app.measure(0, 0, 100_000);
    assert_eq!(size(&app, 0), (1, 65535));
    assert!(app.measure(5, 1, 1).is_empty());
}

#[test]
fn every_pane_is_listened_to() {
    let mut app = shown();
    tell(&mut app, Message::SplitPane(SplitDirection::Horizontal));
    tell(&mut app, Message::NewTab);
    let mut ids = app.subscription();
    ids.sort();
    assert_eq!(ids, vec![0, 1, 2]);
    assert!(App::init(AppConfig::default()).subscription().is_empty());
}

#[test]
fn hiding_keeps_tabs_and_focus() {
    let mut app = shown();
    tell(&mut app, Message::SplitPane(SplitDirection::Vertical));
    tell(&mut app, Message::NewTab);
    tell(&mut app, Message::SelectTab(0));
    tell(&mut app, Message::SelectPane(0));
    tell(&mut app, Message::TogglePopup);
    tell(&mut app, Message::TogglePopup);
    assert_eq!(grid(&app), vec![vec![0, 1]]);
    assert_eq!(focus(&app), Some(0));
    assert_eq!((active(&app), numbers(&app)), (Some(0), vec![1, 2]));
}

#[test]
fn readline_keys_go_to_the_shell() {
    let mut app = shown();
    let write = |bytes: &[u8]| vec![Action::Terminal(0, TermCommand::Write(bytes.to_vec()))];
    let alt = Modifiers { control: false, alt: true, shift: false };
    let none = Modifiers { control: false, alt: false, shift: false };
    let key = Key::Character("F".to_string());
    assert_eq!(tell(&mut app, Message::KeyPressed(key, alt, None)), write(b"\x1bf"));
    let key = Key::Named(NamedKey::Tab);
    assert_eq!(tell(&mut app, Message::KeyPressed(key, none, None)), write(b"\t"));
    let key = Key::Named(NamedKey::ArrowUp);
    assert_eq!(tell(&mut app, Message::KeyPressed(key, none, None)), write(b"\x1b[A"));
}

#[test]
fn burst_of_resizes_is_saved_once() {
    let mut app = shown();
    let sizes = [(700, 400), (800, 450), (100, 2000)];
    let mut saves = Vec::new();
    for (i, (width, height)) in sizes.into_iter().enumerate() {
        let actions =
            app.update(Message::Resized(1, width, height), around(LATER + i as u64, 9));
        match actions.last() {
            Some(Action::ScheduleSave { generation, config }) => {
                saves.push((*generation, *config))
            }
            other => panic!("unexpected {:?}", other),
        }
    }
    let numbers: Vec<u64> = saves.iter().map(|save| save.0).collect();
    assert_eq!(numbers, vec![1, 2, 3]);
    let due: Vec<(u32, u32)> = saves
        .iter()
        .filter(|save| resize_save_due(3, save.0))
        .map(|save| (save.1.window_width, save.1.window_height))
        .collect();
    assert_eq!(due, vec![(500, 2000)]);
    assert_eq!(SAVE_DELAY, 300_000_000);
}

#[test]
fn tabs_go_round() {
    let mut app = shown();
    tell(&mut app, Message::NewTab);
    tell(&mut app, Message::NewTab);
    let mut seen = Vec::new();
    for _ in 0..4 {
        seen.push(active(&app).unwrap());
        tell(&mut app, Message::CycleTabPrev);
    }
    assert_eq!(seen, vec![2, 1, 0, 2]);
}

#[test]
fn names_of_closed_panes_are_not_given_again() {
    let mut app = shown();
    tell(&mut app, Message::SplitPane(SplitDirection::Vertical));
    tell(&mut app, Message::ClosePane(1));
    tell(&mut app, Message::SplitPane(SplitDirection::Vertical));
    assert_eq!(grid(&app), vec![vec![0, 2]]);
    tell(&mut app, Message::CloseTab(0));
    tell(&mut app, Message::NewTab);
    assert_eq!(grid(&app), vec![vec![3]]);
}

#[test]
fn panel_icon_toggles_the_popup() {
    let icon = App::init(AppConfig::default()).panel_icon();
    assert_eq!(icon.icon, "utilities-terminal-symbolic");
    assert!(matches!(icon.press, Message::TogglePopup));
}

#[test]
fn popup_hangs_from_the_top() {
    let placement = surface_placement();
    assert_eq!(placement.layer, SurfaceLayer::Top);
    assert_eq!(placement.keyboard, KeyboardUse::OnDemand);
    assert!(placement.top && placement.left && placement.right && !placement.bottom);
    assert_eq!(placement.exclusive_zone, 0);
}
