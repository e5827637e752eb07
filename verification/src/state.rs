//! The applet's state as a mathematical value, and what each message makes of it.

use crate::action::ActionView;
use crate::config::AppConfig;
use crate::keys::{Key, Modifiers, Shortcut};
use crate::message::{Message, WindowId};
use crate::pane::{PaneId, SplitDirection};
use crate::tab::TabState;
use crate::terminal::{CommandView, Terminal};
use vstd::prelude::*;

verus! {

/// The most tabs that can be open.
pub const MAX_TABS: usize = 15;

/// For how long after it was opened a surface is not hidden for want of focus,
/// in nanoseconds.
pub const UNFOCUS_GRACE: u64 = 200_000_000;

/// For how long after it was opened a surface's size is not taken over, in
/// nanoseconds.
pub const RESIZE_GRACE: u64 = 300_000_000;

/// How long the settings of a resize wait before they are saved, in nanoseconds.
pub const SAVE_DELAY: u64 = 300_000_000;

/// What the program around the applet knows when a message arrives.
#[derive(Debug, Clone, Copy, PartialEq, Eq, Structural)]
pub struct Surroundings {
    /// The time on a clock that never goes back, in nanoseconds.
    pub now: u64,
    /// A name that no surface has had yet.
    pub fresh_window: WindowId,
    /// The mode bits of the terminal that has the focus; zero where none has.
    pub focused_mode: u32,
}

/// The applet's state.
#[verifier::ext_equal]
pub struct AppState {
    /// The surface that is shown, if one is.
    pub window_id: Option<WindowId>,
    pub showing_preferences: bool,
    pub config: AppConfig,
    pub tabs: Seq<TabState>,
    pub active_tab: int,
    /// The name that the next new pane gets.
    pub next_pane_id: PaneId,
    /// Whether the surface stays when it loses the focus.
    pub pinned: bool,
    /// When the surface was last opened.
    pub surface_opened_at: Option<u64>,
    /// How many resizes there have been.
    pub resize_save_generation: u64,
}

/// A state, and what was asked for on the way to it.
#[verifier::ext_equal]
pub struct Step {
    pub state: AppState,
    pub actions: Seq<ActionView>,
}

/// The time from `since` to `now`; none where that lies ahead.
pub open spec fn elapsed(now: u64, since: u64) -> int {
    if now < since {
        0
    } else {
        now - since
    }
}

/// Whether settings that the resize `generation` scheduled for saving are still to
/// be saved, where `latest` is the number of the last resize.
pub open spec fn save_due(latest: u64, generation: u64) -> bool {
    latest == generation
}

/// The tabs, numbered from one.
pub open spec fn renumbered(tabs: Seq<TabState>) -> Seq<TabState> {
    Seq::new(tabs.len(), |i: int| TabState { number: i + 1, ..tabs[i] })
}

/// Which tab has the focus once the tab `idx` is gone and `left` are left: the
/// same as before, or, where that one went, the one that took its place.
pub open spec fn focus_after_close(active: int, idx: int, left: int) -> int {
    if active >= left {
        left - 1
    } else if idx < active {
        active - 1
    } else {
        active
    }
}

impl AppState {
    /// The state of an applet that was just started.
    pub open spec fn initial(config: AppConfig) -> AppState {
        AppState {
            window_id: None,
            showing_preferences: false,
            config,
            tabs: seq![],
            active_tab: 0,
            next_pane_id: 0,
            pinned: false,
            surface_opened_at: None,
            resize_save_generation: 0,
        }
    }

    /// The tabs are in order, numbered from one and not too many; one of them is
    /// the active one, if there are any; and no pane is in two tabs or has a name
    /// that is still to be given.
    pub open spec fn wf(self) -> bool {
        &&& self.tabs.len() <= MAX_TABS
        &&& forall|i: int| 0 <= i < self.tabs.len() ==> (#[trigger] self.tabs[i]).wf()
        &&& forall|i: int| 0 <= i < self.tabs.len() ==> (#[trigger] self.tabs[i]).number == i + 1
        &&& if self.tabs.len() == 0 {
            self.active_tab == 0
        } else {
            0 <= self.active_tab < self.tabs.len()
        }
        &&& forall|i: int, id: PaneId| #[trigger] self.holds(i, id) ==> id < self.next_pane_id
        &&& forall|i: int, j: int, id: PaneId|
            #[trigger] self.holds(i, id) && #[trigger] self.holds(j, id) ==> i == j
    }

    /// In every tab the focused pane is one of the tab's own.
    pub open spec fn focus_ok(self) -> bool {
        forall|i: int| 0 <= i < self.tabs.len() ==> (#[trigger] self.tabs[i]).focus_ok()
    }

    /// Whether the pane `id` is in the tab `i`.
    pub open spec fn holds(self, i: int, id: PaneId) -> bool {
        0 <= i < self.tabs.len() && self.tabs[i].panes.contains_key(id)
    }

    /// Whether the pane `id` is in any tab.
    pub open spec fn has_pane(self, id: PaneId) -> bool {
        exists|i: int| self.holds(i, id)
    }

    /// The tab that the pane `id` is in.
    pub open spec fn tab_of(self, id: PaneId) -> int {
        choose|i: int| self.holds(i, id)
    }

    pub open spec fn has_active_tab(self) -> bool {
        0 <= self.active_tab < self.tabs.len()
    }

    pub open spec fn active(self) -> TabState {
        self.tabs[self.active_tab]
    }

    /// The pane that keyboard input goes to.
    pub open spec fn focused(self) -> Option<PaneId> {
        if self.has_active_tab() && self.active().focus_ok() {
            Some(self.active().active_pane)
        } else {
            None
        }
    }

    /// The window's size in cells.
    pub open spec fn window_cells(self) -> (u16, u16) {
        crate::layout::window_cells(self.config.window_width, self.config.window_height)
    }

    /// Whether the surface was opened less than `grace` before `now`.
    pub open spec fn just_opened(self, now: u64, grace: u64) -> bool {
        match self.surface_opened_at {
            Some(since) => elapsed(now, since) < grace,
            None => false,
        }
    }

    pub open spec fn with_active(self, tab: TabState) -> AppState {
        AppState { tabs: self.tabs.update(self.active_tab, tab), ..self }
    }

    /// Nothing changes and nothing is asked for.
    pub open spec fn unchanged(self) -> Step {
        Step { state: self, actions: seq![] }
    }

    pub open spec fn asking(self, actions: Seq<ActionView>) -> Step {
        Step { state: self, actions }
    }

    /// The panes of the active tab get their sizes in the window.
    pub open spec fn relaid(self) -> Step {
        if self.has_active_tab() {
            Step {
                state: self.with_active(self.active().laid_out(self.window_cells())),
                actions: self.active().layout_actions(self.window_cells()),
            }
        } else {
            self.unchanged()
        }
    }

    /// As [`AppState::relaid`], between other actions.
    pub open spec fn relaid_between(
        self,
        before: Seq<ActionView>,
        after: Seq<ActionView>,
    ) -> Step {
        Step { state: self.relaid().state, actions: before + self.relaid().actions + after }
    }

    /// A tab with one new pane, as large as the window, is opened and focused.
    pub open spec fn opened_tab(self) -> Step {
        let id = self.next_pane_id;
        let size = self.window_cells();
        Step {
            state: AppState {
                tabs: self.tabs.push(TabState::single(self.tabs.len() as int + 1, id, size)),
                active_tab: self.tabs.len() as int,
                next_pane_id: (id + 1) as PaneId,
                ..self
            },
            actions: seq![ActionView::SpawnTerminal { pane: id, cols: size.0, rows: size.1 }],
        }
    }

    /// The surface is hidden; or it is shown, with a first tab where there is
    /// none.
    pub open spec fn toggle_popup(self, around: Surroundings) -> Step {
        match self.window_id {
            Some(id) => Step {
                state: AppState { window_id: None, ..self },
                actions: seq![ActionView::DestroySurface(id)],
            },
            None => {
                let shown = AppState {
                    window_id: Some(around.fresh_window),
                    surface_opened_at: Some(around.now),
                    ..self
                };
                let open = ActionView::OpenSurface {
                    window: around.fresh_window,
                    width: self.config.window_width,
                    height: self.config.window_height,
                };
                if self.tabs.len() == 0 {
                    Step {
                        state: shown.opened_tab().state,
                        actions: shown.opened_tab().actions.push(open),
                    }
                } else {
                    shown.relaid_between(seq![], seq![open])
                }
            },
        }
    }

    /// The settings change, and are saved.
    pub open spec fn configured(self, config: AppConfig) -> Step {
        Step {
            state: AppState { config, ..self },
            actions: seq![ActionView::SaveConfig(config)],
        }
    }

    pub open spec fn user_host_color_input(self, text: Seq<char>) -> Step {
        match crate::preferences::parsed_color(text) {
            Some(color) => self.configured(AppConfig { user_host_color: color, ..self.config }),
            None => self.unchanged(),
        }
    }

    pub open spec fn directory_color_input(self, text: Seq<char>) -> Step {
        match crate::preferences::parsed_color(text) {
            Some(color) => self.configured(AppConfig { directory_color: color, ..self.config }),
            None => self.unchanged(),
        }
    }

    pub open spec fn surface_closed(self, id: WindowId) -> Step {
        if self.window_id == Some(id) {
            AppState { window_id: None, ..self }.unchanged()
        } else {
            self.unchanged()
        }
    }

    /// The surface is hidden, unless it is pinned or was only just opened.
    pub open spec fn surface_unfocused(self, id: WindowId, now: u64) -> Step {
        if self.window_id == Some(id) && !self.pinned && !self.just_opened(now, UNFOCUS_GRACE) {
            Step {
                state: AppState { window_id: None, ..self },
                actions: seq![ActionView::DestroySurface(id)],
            }
        } else {
            self.unchanged()
        }
    }

    /// The new size is taken over and will be saved, unless the surface was only
    /// just opened.
    pub open spec fn resized(self, id: WindowId, width: u32, height: u32, now: u64) -> Step {
        if self.window_id != Some(id) || self.just_opened(now, RESIZE_GRACE) {
            self.unchanged()
        } else {
            let config = self.config.sized(width, height);
            let generation = (self.resize_save_generation + 1) as u64;
            AppState { config, resize_save_generation: generation, ..self }.relaid_between(
                seq![],
                seq![ActionView::ScheduleSave { generation, config }],
            )
        }
    }

    pub open spec fn terminal_updated(self, id: PaneId) -> Step {
        if self.has_pane(id) {
            self.asking(seq![ActionView::Terminal(id, CommandView::Invalidate)])
        } else {
            self.unchanged()
        }
    }

    /// A new pane is split off the focused one, where there is room for it.
    pub open spec fn split_pane(self, direction: SplitDirection) -> Step {
        if !self.split_opens_pane(direction) {
            self.unchanged()
        } else {
            let id = self.next_pane_id;
            let size = self.active().split_size(direction, self.window_cells());
            AppState {
                next_pane_id: (id + 1) as PaneId,
                ..self.with_active(self.active().split(direction, id, size))
            }.relaid_between(
                seq![ActionView::SpawnTerminal { pane: id, cols: size.0, rows: size.1 }],
                seq![],
            )
        }
    }

    /// The pane is closed, and its tab with it where it has no other.
    pub open spec fn close_pane(self, id: PaneId) -> Step {
        if !self.has_pane(id) {
            self.unchanged()
        } else {
            let i = self.tab_of(id);
            if self.tabs[i].columns.flatten().len() <= 1 {
                self.close_tab(i)
            } else {
                AppState {
                    tabs: self.tabs.update(i, self.tabs[i].without_pane(id)),
                    ..self
                }.relaid_between(
                    seq![ActionView::Terminal(id, CommandView::Shutdown)],
                    seq![],
                )
            }
        }
    }

    pub open spec fn select_pane(self, id: PaneId) -> Step {
        if self.has_active_tab() {
            self.with_active(TabState { active_pane: id, ..self.active() }).unchanged()
        } else {
            self.unchanged()
        }
    }

    pub open spec fn new_tab(self) -> Step {
        if self.tabs.len() >= MAX_TABS {
            self.unchanged()
        } else {
            self.opened_tab()
        }
    }

    /// The tab is closed; with the last one, the surface is hidden too.
    pub open spec fn close_tab(self, idx: int) -> Step {
        if idx < 0 || idx >= self.tabs.len() {
            self.unchanged()
        } else if self.tabs.len() <= 1 {
            Step {
                state: AppState { tabs: seq![], window_id: None, ..self },
                actions: self.tabs[idx].shutdown_actions() + match self.window_id {
                    Some(id) => seq![ActionView::DestroySurface(id)],
                    None => seq![],
                },
            }
        } else {
            AppState {
                tabs: renumbered(self.tabs.remove(idx)),
                active_tab: focus_after_close(self.active_tab, idx, self.tabs.len() - 1),
                ..self
            }.relaid_between(self.tabs[idx].shutdown_actions(), seq![])
        }
    }

    pub open spec fn select_tab(self, idx: int) -> Step {
        if 0 <= idx < self.tabs.len() {
            AppState { active_tab: idx, ..self }.relaid()
        } else {
            self.unchanged()
        }
    }

    /// The tab `step` places on, round again, gets the focus.
    pub open spec fn cycle_tab(self, step: int) -> Step {
        if self.tabs.len() > 0 {
            self.select_tab((self.active_tab + step) % (self.tabs.len() as int))
        } else {
            self.unchanged()
        }
    }

    pub open spec fn cycle_pane(self, step: int) -> Step {
        if self.has_active_tab() {
            self.with_active(self.active().cycled(step)).unchanged()
        } else {
            self.unchanged()
        }
    }

    pub open spec fn copy_selection(self) -> Step {
        match self.focused() {
            Some(id) => self.asking(seq![ActionView::ReadSelection(id)]),
            None => self.unchanged(),
        }
    }

    pub open spec fn selection_read(self, text: Option<String>) -> Step {
        match text {
            Some(text) => self.asking(seq![ActionView::WriteClipboard(text@)]),
            None => self.unchanged(),
        }
    }

    pub open spec fn clipboard_pasted(self, content: Option<String>, mode: u32) -> Step {
        match (content, self.focused()) {
            (Some(text), Some(id)) => self.asking(
                seq![
                    ActionView::Terminal(
                        id,
                        CommandView::Write(crate::terminal::pasted(text@, mode)),
                    ),
                ],
            ),
            _ => self.unchanged(),
        }
    }

    pub open spec fn pane_scroll(self, id: PaneId, lines: i32) -> Step {
        if self.has_pane(id) && lines != 0 {
            self.asking(
                crate::action::for_terminal(id, crate::terminal::scroll_commands(lines)),
            )
        } else {
            self.unchanged()
        }
    }

    /// A pane was drawn at a size of `cols` by `rows` cells, and takes it over.
    pub open spec fn measured(self, id: PaneId, cols: u16, rows: u16) -> Step {
        if !self.has_pane(id) {
            self.unchanged()
        } else {
            let i = self.tab_of(id);
            let tab = self.tabs[i];
            Step {
                state: AppState {
                    tabs: self.tabs.update(
                        i,
                        TabState {
                            panes: tab.panes.insert(id, Terminal { last_size: (cols, rows) }),
                            ..tab
                        },
                    ),
                    ..self
                },
                actions: if tab.panes[id].last_size == (cols, rows) {
                    seq![]
                } else {
                    crate::action::for_terminal(id, crate::terminal::resize_commands(cols, rows))
                },
            }
        }
    }

    /// What a shortcut does.
    pub open spec fn shortcut(self, shortcut: Shortcut, around: Surroundings) -> Step {
        match shortcut {
            Shortcut::TogglePopup => self.toggle_popup(around),
            Shortcut::SplitHorizontal => self.split_pane(SplitDirection::Horizontal),
            Shortcut::SplitVertical => self.split_pane(SplitDirection::Vertical),
            Shortcut::ClosePane => if self.has_active_tab() {
                self.close_pane(self.active().active_pane)
            } else {
                self.unchanged()
            },
            Shortcut::NextPane => self.cycle_pane(1),
            Shortcut::PreviousPane => self.cycle_pane(-1),
            Shortcut::NewTab => self.new_tab(),
            Shortcut::CloseTab => self.close_tab(self.active_tab),
            Shortcut::NextTab => self.cycle_tab(1),
            Shortcut::PreviousTab => self.cycle_tab(-1),
            Shortcut::TogglePin => AppState { pinned: !self.pinned, ..self }.unchanged(),
            Shortcut::Copy => self.copy_selection(),
            Shortcut::Paste => self.asking(seq![ActionView::ReadClipboard]),
        }
    }

    /// A key press is a shortcut, or input for the focused terminal.
    pub open spec fn key_pressed(
        self,
        key: Key,
        modifiers: Modifiers,
        text: Option<String>,
        around: Surroundings,
    ) -> Step {
        match crate::keys::shortcut_of(key, modifiers) {
            Some(shortcut) => self.shortcut(shortcut, around),
            None => {
                let bytes = crate::keys::key_bytes(key, modifiers, text);
                match self.focused() {
                    Some(id) => if bytes.len() > 0 {
                        self.asking(seq![ActionView::Terminal(id, CommandView::Write(bytes))])
                    } else {
                        self.unchanged()
                    },
                    None => self.unchanged(),
                }
            },
        }
    }

    /// What a message does.
    pub open spec fn step(self, message: Message, around: Surroundings) -> Step {
        match message {
            Message::TogglePopup => self.toggle_popup(around),
            Message::TogglePreferences => AppState {
                showing_preferences: !self.showing_preferences,
                ..self
            }.unchanged(),
            Message::UserHostColorInput(text) => self.user_host_color_input(text@),
            Message::DirectoryColorInput(text) => self.directory_color_input(text@),
            Message::SurfaceClosed(id) => self.surface_closed(id),
            Message::SurfaceUnfocused(id) => self.surface_unfocused(id, around.now),
            Message::TogglePin => self.shortcut(Shortcut::TogglePin, around),
            Message::Resized(id, width, height) => self.resized(id, width, height, around.now),
            Message::TerminalUpdated(id) => self.terminal_updated(id),
            Message::KeyPressed(key, modifiers, text) => self.key_pressed(
                key,
                modifiers,
                text,
                around,
            ),
            Message::SplitPane(direction) => self.split_pane(direction),
            Message::ClosePane(id) => self.close_pane(id),
            Message::SelectPane(id) => self.select_pane(id),
            Message::NewTab => self.new_tab(),
            Message::CloseTab(idx) => self.close_tab(idx as int),
            Message::SelectTab(idx) => self.select_tab(idx as int),
            Message::CycleTabNext => self.cycle_tab(1),
            Message::CycleTabPrev => self.cycle_tab(-1),
            Message::CyclePaneNext => self.cycle_pane(1),
            Message::CyclePanePrev => self.cycle_pane(-1),
            Message::CopySelection => self.copy_selection(),
            Message::SelectionRead(text) => self.selection_read(text),
            Message::PasteClipboard => self.shortcut(Shortcut::Paste, around),
            Message::ClipboardPasted(content) => self.clipboard_pasted(
                content,
                around.focused_mode,
            ),
            Message::PaneScroll(id, lines) => self.pane_scroll(id, lines),
        }
    }

    /// Whether a split opens a pane.
    pub open spec fn split_opens_pane(self, direction: SplitDirection) -> bool {
        self.has_active_tab() && self.active().can_split(direction)
    }

    /// Whether a shortcut opens a pane.
    pub open spec fn shortcut_opens_pane(self, shortcut: Shortcut) -> bool {
        match shortcut {
            Shortcut::TogglePopup => self.window_id is None && self.tabs.len() == 0,
            Shortcut::SplitHorizontal => self.split_opens_pane(SplitDirection::Horizontal),
            Shortcut::SplitVertical => self.split_opens_pane(SplitDirection::Vertical),
            Shortcut::NewTab => self.tabs.len() < MAX_TABS,
            _ => false,
        }
    }

    /// Whether a message opens a pane.
    pub open spec fn opens_pane(self, message: Message) -> bool {
        match message {
            Message::TogglePopup => self.shortcut_opens_pane(Shortcut::TogglePopup),
            Message::SplitPane(direction) => self.split_opens_pane(direction),
            Message::NewTab => self.shortcut_opens_pane(Shortcut::NewTab),
            Message::KeyPressed(key, modifiers, _) => match crate::keys::shortcut_of(
                key,
                modifiers,
            ) {
                Some(shortcut) => self.shortcut_opens_pane(shortcut),
                None => false,
            },
            _ => false,
        }
    }

    /// Whether the message can be dealt with: the counters have room where they are
    /// needed, and an entered colour can be read.
    pub open spec fn can_take(self, message: Message) -> bool {
        &&& self.opens_pane(message) ==> self.next_pane_id < u64::MAX
        &&& match message {
            Message::Resized(id, _, _) => self.window_id == Some(id) ==> self.resize_save_generation
                < u64::MAX,
            Message::UserHostColorInput(text) => crate::preferences::readable_color(text@),
            Message::DirectoryColorInput(text) => crate::preferences::readable_color(text@),
            _ => true,
        }
    }
}

} // verus!
