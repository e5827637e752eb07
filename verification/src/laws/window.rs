//! What the messages about the window, the settings and the clipboard do.

use crate::action::ActionView;
use crate::config::AppConfig;
use crate::message::{Message, WindowId};
use crate::pane::PaneId;
use crate::state::{AppState, Surroundings};
use crate::terminal::{CommandView, Terminal};
use vstd::prelude::*;

verus! {

/// An applet starts with nothing shown and nothing open, and with the settings that
/// it is given.
pub proof fn law_start_is_empty(config: AppConfig)
    ensures
        ({
            let s = AppState::initial(config);
            &&& s.window_id is None
            &&& !s.showing_preferences
            &&& s.config == config
            &&& s.tabs.len() == 0
            &&& s.active_tab == 0
            &&& s.next_pane_id == 0
            &&& !s.pinned
            &&& s.surface_opened_at is None
            &&& s.resize_save_generation == 0
        }),
{
}

/// What order means: at most fifteen tabs, numbered from one, of one to four columns
/// of one to four panes; each pane has a terminal and is in one place of one tab; an
/// active tab where there is any; and no name that is still to be given is taken.
pub proof fn law_order_means(s: AppState)
    requires
        s.wf(),
    ensures
        s.tabs.len() <= 15,
        s.tabs.len() > 0 ==> 0 <= s.active_tab < s.tabs.len(),
        s.tabs.len() == 0 ==> s.active_tab == 0,
        forall|i: int|
            0 <= i < s.tabs.len() ==> (#[trigger] s.tabs[i]).number == i + 1 && 1
                <= s.tabs[i].columns.len() <= 4,
        forall|i: int, c: int|
            0 <= i < s.tabs.len() && 0 <= c < s.tabs[i].columns.len() ==> 1 <= (
            #[trigger] s.tabs[i].columns[c]).len() <= 4,
        forall|i: int, c: int, r: int|
            0 <= i < s.tabs.len() && 0 <= c < s.tabs[i].columns.len() && 0 <= r
                < s.tabs[i].columns[c].len() ==> s.tabs[i].panes.contains_key(
                #[trigger] s.tabs[i].columns[c][r],
            ) && s.tabs[i].columns[c][r] < s.next_pane_id,
        forall|i: int, c: int, r: int, j: int, d: int, q: int|
            0 <= i < s.tabs.len() && 0 <= c < s.tabs[i].columns.len() && 0 <= r
                < s.tabs[i].columns[c].len() && 0 <= j < s.tabs.len() && 0 <= d
                < s.tabs[j].columns.len() && 0 <= q < s.tabs[j].columns[d].len() && (
            #[trigger] s.tabs[i].columns[c][r]) == (#[trigger] s.tabs[j].columns[d][q]) ==> i == j
                && c == d && r == q,
        forall|i: int, id: PaneId|
            0 <= i < s.tabs.len() && #[trigger] s.tabs[i].panes.contains_key(id)
                ==> s.tabs[i].columns.flatten().contains(id),
{
    assert forall|i: int, c: int, r: int|
        0 <= i < s.tabs.len() && 0 <= c < s.tabs[i].columns.len() && 0 <= r
            < s.tabs[i].columns[c].len() implies s.tabs[i].panes.contains_key(
        #[trigger] s.tabs[i].columns[c][r],
    ) && s.tabs[i].columns[c][r] < s.next_pane_id by {
        let id = s.tabs[i].columns[c][r];
        assert(crate::grid::at(s.tabs[i].columns, c, r, id));
        assert(crate::grid::in_grid(s.tabs[i].columns, id));
        assert(s.holds(i, id));
    }
    assert forall|i: int, c: int, r: int, j: int, d: int, q: int|
        0 <= i < s.tabs.len() && 0 <= c < s.tabs[i].columns.len() && 0 <= r
            < s.tabs[i].columns[c].len() && 0 <= j < s.tabs.len() && 0 <= d
            < s.tabs[j].columns.len() && 0 <= q < s.tabs[j].columns[d].len() && (
        #[trigger] s.tabs[i].columns[c][r]) == (#[trigger] s.tabs[j].columns[d][q]) implies i == j
        && c == d && r == q by {
        let id = s.tabs[i].columns[c][r];
        assert(s.tabs[i].panes.contains_key(id));
        assert(s.tabs[j].panes.contains_key(s.tabs[j].columns[d][q]));
        assert(s.holds(i, id) && s.holds(j, id));
        assert(crate::grid::at(s.tabs[i].columns, c, r, id));
        assert(crate::grid::at(s.tabs[i].columns, d, q, id));
    }
    assert forall|i: int, id: PaneId|
        0 <= i < s.tabs.len() && #[trigger] s.tabs[i].panes.contains_key(
            id,
        ) implies s.tabs[i].columns.flatten().contains(id) by {
        crate::grid::lemma_flatten_members(s.tabs[i].columns);
    }
}

/// While names and numbers last, every message can be dealt with but a colour that
/// cannot be read.
pub proof fn law_messages_can_be_dealt_with(s: AppState, message: Message)
    requires
        s.next_pane_id < u64::MAX,
        s.resize_save_generation < u64::MAX,
    ensures
        message matches Message::UserHostColorInput(text) ==> (s.can_take(message)
            <==> crate::preferences::readable_color(text@)),
        message matches Message::DirectoryColorInput(text) ==> (s.can_take(message)
            <==> crate::preferences::readable_color(text@)),
        !(message is UserHostColorInput || message is DirectoryColorInput) ==> s.can_take(message),
{
}

/// A pane exists where some tab has a terminal for it.
pub proof fn law_pane_is_in_a_tab(s: AppState, id: PaneId)
    ensures
        s.has_pane(id) <==> exists|i: int|
            0 <= i < s.tabs.len() && (#[trigger] s.tabs[i]).panes.contains_key(id),
{
    if s.has_pane(id) {
        let i = s.tab_of(id);
        assert(s.holds(i, id));
        assert(s.tabs[i].panes.contains_key(id));
    }
    if exists|i: int| 0 <= i < s.tabs.len() && (#[trigger] s.tabs[i]).panes.contains_key(id) {
        let i = choose|i: int|
            0 <= i < s.tabs.len() && (#[trigger] s.tabs[i]).panes.contains_key(id);
        assert(s.holds(i, id));
    }
}

/// While the drop-down is shown, toggling hides it and does nothing else.
pub proof fn law_toggle_hides(s: AppState, window: WindowId, around: Surroundings)
    requires
        s.window_id == Some(window),
    ensures
        s.step(Message::TogglePopup, around).state == (AppState { window_id: None, ..s }),
        s.step(Message::TogglePopup, around).actions == seq![ActionView::DestroySurface(window)],
{
}

/// While it is hidden, toggling shows it last of all, in the size of the settings,
/// under the fresh name and from this moment on. Where there are tabs they stay,
/// with their panes and their focus; where there is none, one is opened.
pub proof fn law_toggle_shows(s: AppState, around: Surroundings)
    requires
        s.wf(),
        s.window_id is None,
    ensures
        ({
            let step = s.step(Message::TogglePopup, around);
            let after = step.state;
            &&& after.window_id == Some(around.fresh_window)
            &&& after.surface_opened_at == Some(around.now)
            &&& after.showing_preferences == s.showing_preferences
            &&& after.config == s.config
            &&& after.pinned == s.pinned
            &&& after.resize_save_generation == s.resize_save_generation
            &&& step.actions.len() > 0
            &&& step.actions.last() == ActionView::OpenSurface {
                window: around.fresh_window,
                width: s.config.window_width,
                height: s.config.window_height,
            }
            &&& s.tabs.len() == 0 ==> after.tabs.len() == 1 && after.active_tab == 0
            &&& s.tabs.len() > 0 ==> after.tabs.len() == s.tabs.len() && after.active_tab
                == s.active_tab && after.next_pane_id == s.next_pane_id
            &&& forall|i: int|
                0 <= i < s.tabs.len() ==> (#[trigger] after.tabs[i]).columns == s.tabs[i].columns
                    && after.tabs[i].active_pane == s.tabs[i].active_pane
        }),
{
}

/// The two switches turn over, and nothing else happens.
pub proof fn law_switches_turn_over(s: AppState, around: Surroundings)
    ensures
        s.step(Message::TogglePreferences, around).state == (AppState {
            showing_preferences: !s.showing_preferences,
            ..s
        }),
        s.step(Message::TogglePreferences, around).actions.len() == 0,
        s.step(Message::TogglePin, around).state == (AppState { pinned: !s.pinned, ..s }),
        s.step(Message::TogglePin, around).actions.len() == 0,
{
}

/// A text that stands for a colour sets just the colour that it was entered for, and
/// the settings are saved as they now are. Any other text does nothing.
pub proof fn law_entered_color_is_set(s: AppState, text: String, around: Surroundings)
    ensures
        ({
            let user_host = s.step(Message::UserHostColorInput(text), around);
            let directory = s.step(Message::DirectoryColorInput(text), around);
            match crate::preferences::parsed_color(text@) {
                Some(color) => {
                    &&& user_host.state == (AppState {
                        config: AppConfig { user_host_color: color, ..s.config },
                        ..s
                    })
                    &&& user_host.actions == seq![ActionView::SaveConfig(user_host.state.config)]
                    &&& directory.state == (AppState {
                        config: AppConfig { directory_color: color, ..s.config },
                        ..s
                    })
                    &&& directory.actions == seq![ActionView::SaveConfig(directory.state.config)]
                },
                None => {
                    &&& user_host.state == s
                    &&& user_host.actions.len() == 0
                    &&& directory.state == s
                    &&& directory.actions.len() == 0
                },
            }
        }),
{
}

/// A surface that was closed is forgotten if it was the one shown; nothing else
/// happens.
pub proof fn law_closed_surface_is_forgotten(s: AppState, id: WindowId, around: Surroundings)
    ensures
        s.step(Message::SurfaceClosed(id), around).actions.len() == 0,
        s.window_id == Some(id) ==> s.step(Message::SurfaceClosed(id), around).state == (AppState {
            window_id: None,
            ..s
        }),
        s.window_id != Some(id) ==> s.step(Message::SurfaceClosed(id), around).state == s,
{
}

/// The drop-down is hidden when it loses the focus, if it is not pinned and was
/// opened at least a fifth of a second ago. In every other case nothing happens.
pub proof fn law_focus_loss_hides(s: AppState, id: WindowId, around: Surroundings)
    ensures
        ({
            let step = s.step(Message::SurfaceUnfocused(id), around);
            let recent = match s.surface_opened_at {
                Some(opened) => around.now < opened + 200_000_000,
                None => false,
            };
            if s.window_id == Some(id) && !s.pinned && !recent {
                &&& step.state == (AppState { window_id: None, ..s })
                &&& step.actions == seq![ActionView::DestroySurface(id)]
            } else {
                &&& step.state == s
                &&& step.actions.len() == 0
            }
        }),
{
}

/// A resize of any surface but the one shown, or within three tenths of a second
/// after that was opened, does nothing.
pub proof fn law_early_resize_is_ignored(
    s: AppState,
    id: WindowId,
    width: u32,
    height: u32,
    around: Surroundings,
)
    requires
        s.window_id != Some(id) || (s.surface_opened_at matches Some(opened) && around.now < opened
            + 300_000_000),
    ensures
        s.step(Message::Resized(id, width, height), around).state == s,
        s.step(Message::Resized(id, width, height), around).actions.len() == 0,
{
}

/// Any other resize becomes the size of the settings, raised to five hundred by
/// three hundred where it is smaller, and is scheduled for saving last of all, under
/// the next number. The colours, the tabs and everything else stay.
pub proof fn law_resize_is_taken_over(
    s: AppState,
    id: WindowId,
    width: u32,
    height: u32,
    around: Surroundings,
)
    requires
        s.window_id == Some(id),
        s.surface_opened_at matches Some(opened) ==> around.now >= opened + 300_000_000,
        s.resize_save_generation < u64::MAX,
    ensures
        ({
            let step = s.step(Message::Resized(id, width, height), around);
            let after = step.state;
            &&& after.config.window_width == (if width < 500 {
                500u32
            } else {
                width
            })
            &&& after.config.window_height == (if height < 300 {
                300u32
            } else {
                height
            })
            &&& after.config.user_host_color == s.config.user_host_color
            &&& after.config.directory_color == s.config.directory_color
            &&& after.resize_save_generation == s.resize_save_generation + 1
            &&& step.actions.len() > 0
            &&& step.actions.last() == ActionView::ScheduleSave {
                generation: after.resize_save_generation,
                config: after.config,
            }
            &&& after.window_id == s.window_id
            &&& after.surface_opened_at == s.surface_opened_at
            &&& after.showing_preferences == s.showing_preferences
            &&& after.pinned == s.pinned
            &&& after.next_pane_id == s.next_pane_id
            &&& after.active_tab == s.active_tab
            &&& after.tabs.len() == s.tabs.len()
            &&& forall|i: int|
                0 <= i < s.tabs.len() ==> (#[trigger] after.tabs[i]).columns == s.tabs[i].columns
                    && after.tabs[i].active_pane == s.tabs[i].active_pane
        }),
{
}

/// Scheduled settings are saved exactly where their number is still the last one.
pub proof fn law_only_the_last_number_is_due(latest: u64, generation: u64)
    ensures
        crate::state::save_due(latest, generation) <==> latest == generation,
{
}

/// News of a terminal drops its own cached drawing, in whichever tab it is; nothing
/// else happens.
pub proof fn law_news_redraws_the_pane(s: AppState, id: PaneId, around: Surroundings)
    ensures
        s.step(Message::TerminalUpdated(id), around).state == s,
        (exists|i: int| 0 <= i < s.tabs.len() && (#[trigger] s.tabs[i]).panes.contains_key(id))
            ==> s.step(Message::TerminalUpdated(id), around).actions == seq![
            ActionView::Terminal(id, CommandView::Invalidate),
        ],
        !(exists|i: int| 0 <= i < s.tabs.len() && (#[trigger] s.tabs[i]).panes.contains_key(id))
            ==> s.step(Message::TerminalUpdated(id), around).actions.len() == 0,
{
    law_pane_is_in_a_tab(s, id);
}

/// The wheel over a pane of any tab moves that pane's view by just as many lines, in
/// the same direction, and has it drawn anew; nothing else happens. No lines, or a
/// pane that does not exist, and nothing happens at all.
pub proof fn law_wheel_scrolls_the_pane(
    s: AppState,
    id: PaneId,
    lines: i32,
    around: Surroundings,
)
    ensures
        s.step(Message::PaneScroll(id, lines), around).state == s,
        lines != 0 && (exists|i: int|
            0 <= i < s.tabs.len() && (#[trigger] s.tabs[i]).panes.contains_key(id)) ==> s.step(
            Message::PaneScroll(id, lines),
            around,
        ).actions == seq![
            ActionView::Terminal(id, CommandView::ScrollDisplay(lines)),
            ActionView::Terminal(id, CommandView::Invalidate),
        ],
        lines == 0 || !(exists|i: int|
            0 <= i < s.tabs.len() && (#[trigger] s.tabs[i]).panes.contains_key(id)) ==> s.step(
            Message::PaneScroll(id, lines),
            around,
        ).actions.len() == 0,
{
    law_pane_is_in_a_tab(s, id);
    assert(crate::action::for_terminal(id, crate::terminal::scroll_commands(lines)) =~= seq![
        ActionView::Terminal(id, CommandView::ScrollDisplay(lines)),
        ActionView::Terminal(id, CommandView::Invalidate),
    ]);
}

/// The keyboard goes to the focused pane of the active tab, if that pane is one of
/// the tab's own.
pub proof fn law_keyboard_goes_to_the_focused_pane(s: AppState, id: PaneId)
    ensures
        s.focused() == Some(id) <==> {
            &&& 0 <= s.active_tab < s.tabs.len()
            &&& s.tabs[s.active_tab].active_pane == id
            &&& s.tabs[s.active_tab].panes.contains_key(id)
        },
{
}

/// Copying asks for the text that is selected in the focused pane, and what comes
/// back goes to the clipboard as it is.
pub proof fn law_copy_takes_the_selection(s: AppState, text: String, around: Surroundings)
    ensures
        s.step(Message::CopySelection, around).state == s,
        s.focused() matches Some(id) ==> s.step(Message::CopySelection, around).actions == seq![
            ActionView::ReadSelection(id),
        ],
        s.focused() is None ==> s.step(Message::CopySelection, around).actions.len() == 0,
        s.step(Message::SelectionRead(Some(text)), around).state == s,
        s.step(Message::SelectionRead(Some(text)), around).actions == seq![
            ActionView::WriteClipboard(text@),
        ],
        s.step(Message::SelectionRead(None), around).state == s,
        s.step(Message::SelectionRead(None), around).actions.len() == 0,
{
}

/// Pasting asks for the clipboard's text, and what comes back is pasted into the
/// focused pane.
pub proof fn law_paste_fills_the_focused_pane(s: AppState, text: String, around: Surroundings)
    ensures
        s.step(Message::PasteClipboard, around).state == s,
        s.step(Message::PasteClipboard, around).actions == seq![ActionView::ReadClipboard],
        s.step(Message::ClipboardPasted(Some(text)), around).state == s,
        s.focused() matches Some(id) ==> s.step(
            Message::ClipboardPasted(Some(text)),
            around,
        ).actions == seq![
            ActionView::Terminal(
                id,
                CommandView::Write(crate::terminal::pasted(text@, around.focused_mode)),
            ),
        ],
        s.focused() is None ==> s.step(
            Message::ClipboardPasted(Some(text)),
            around,
        ).actions.len() == 0,
        s.step(Message::ClipboardPasted(None), around).state == s,
        s.step(Message::ClipboardPasted(None), around).actions.len() == 0,
{
}

/// A pane that was drawn at a size has that size, and no other pane's size changes.
/// Its terminal is told if, and only if, it had another size.
pub proof fn law_drawn_size_is_taken_over(s: AppState, i: int, id: PaneId, cols: u16, rows: u16)
    requires
        s.wf(),
        0 <= i < s.tabs.len(),
        s.tabs[i].panes.contains_key(id),
    ensures
        ({
            let step = s.measured(id, cols, rows);
            &&& step.state.tabs.len() == s.tabs.len()
            &&& step.state == (AppState { tabs: step.state.tabs, ..s })
            &&& forall|j: int|
                0 <= j < s.tabs.len() && j != i ==> (#[trigger] step.state.tabs[j]) == s.tabs[j]
            &&& step.state.tabs[i].number == s.tabs[i].number
            &&& step.state.tabs[i].columns == s.tabs[i].columns
            &&& step.state.tabs[i].active_pane == s.tabs[i].active_pane
            &&& step.state.tabs[i].panes == s.tabs[i].panes.insert(
                id,
                Terminal { last_size: (cols, rows) },
            )
            &&& s.tabs[i].panes[id].last_size == (cols, rows) ==> step.actions.len() == 0
            &&& s.tabs[i].panes[id].last_size != (cols, rows) ==> step.actions
                == crate::laws::sizes::told_size(id, cols, rows)
        }),
{
    assert(s.holds(i, id));
    assert(s.has_pane(id));
    assert(s.holds(s.tab_of(id), id));
    assert(crate::action::for_terminal(id, crate::terminal::resize_commands(cols, rows))
        =~= crate::laws::sizes::told_size(id, cols, rows));
}

/// A drawn size of a pane that does not exist changes nothing.
pub proof fn law_unknown_drawn_size_is_ignored(s: AppState, id: PaneId, cols: u16, rows: u16)
    requires
        forall|i: int|
            0 <= i < s.tabs.len() ==> !(#[trigger] s.tabs[i]).panes.contains_key(id),
    ensures
        s.measured(id, cols, rows).state == s,
        s.measured(id, cols, rows).actions.len() == 0,
{
    law_pane_is_in_a_tab(s, id);
}

} // verus!
