//! The applet: its tabs, and how it answers to what happens.

use crate::action::{push_commands, Action};
use crate::config::AppConfig;
use crate::keys::{key_to_bytes, shortcut, Key, Modifiers, Shortcut};
use crate::layout::{clamp_cells, cols_rows};
use crate::message::{Message, WindowId};
use crate::pane::{PaneId, SplitDirection};
use crate::preferences::{is_readable_color, parse_hex_color};
use crate::state::{AppState, Surroundings, MAX_TABS, RESIZE_GRACE, UNFOCUS_GRACE};
use crate::tab::{Tab, TabState};
use crate::terminal::Terminal;
use crate::view::{ClickLabel, Label, PanelIcon, TabBar, TabEntry, WindowView};
use vstd::prelude::*;

verus! {

/// The applet's name on the desktop.
pub const APP_ID: &'static str = "com.github.drop-term";

/// The applet.
pub struct App {
    window_id: Option<WindowId>,
    showing_preferences: bool,
    config: AppConfig,
    tabs: Vec<Tab>,
    active_tab: usize,
    next_pane_id: PaneId,
    pinned: bool,
    surface_opened_at: Option<u64>,
    resize_save_generation: u64,
}

/// The tabs of a list, as mathematical values.
pub open spec fn tab_views(tabs: Seq<Tab>) -> Seq<TabState> {
    tabs.map_values(|t: Tab| t@)
}

impl View for App {
    type V = AppState;

    closed spec fn view(&self) -> AppState {
        AppState {
            window_id: self.window_id,
            showing_preferences: self.showing_preferences,
            config: self.config,
            tabs: tab_views(self.tabs@),
            active_tab: self.active_tab as int,
            next_pane_id: self.next_pane_id,
            pinned: self.pinned,
            surface_opened_at: self.surface_opened_at,
            resize_save_generation: self.resize_save_generation,
        }
    }
}

impl App {
    /// An applet that was just started: nothing is shown and no tab is open.
    pub fn init(config: AppConfig) -> (app: App)
        ensures
            app@ == AppState::initial(config),
            app@.wf(),
            app@.focus_ok(),
    {
        let app = App {
            window_id: None,
            showing_preferences: false,
            config,
            tabs: Vec::new(),
            active_tab: 0,
            next_pane_id: 0,
            pinned: false,
            surface_opened_at: None,
            resize_save_generation: 0,
        };
        assert(app@ =~= AppState::initial(config));
        app
    }

    /// A name for a new pane, which no pane has had before.
    fn reserve_pane_id(&mut self) -> (id: PaneId)
        requires
            old(self)@.next_pane_id < u64::MAX,
        ensures
            id == old(self)@.next_pane_id,
            final(self)@ == (AppState { next_pane_id: (id + 1) as PaneId, ..old(self)@ }),
    {
        let id = self.next_pane_id;
        self.next_pane_id = self.next_pane_id + 1;
        id
    }

    /// Numbers the tabs from one.
    fn renumber_tabs(&mut self)
        requires
            old(self)@.tabs.len() <= MAX_TABS,
        ensures
            final(self)@ == (AppState {
                tabs: crate::state::renumbered(old(self)@.tabs),
                ..old(self)@
            }),
    {
        let ghost start = self@;
        let len = self.tabs.len();
        for i in 0..len
            invariant
                len == self.tabs@.len() <= MAX_TABS,
                self@.tabs.len() == start.tabs.len(),
                self@ == (AppState { tabs: self@.tabs, ..start }),
                forall|j: int|
                    0 <= j < i ==> (#[trigger] self@.tabs[j]) == (TabState {
                        number: j + 1,
                        ..start.tabs[j]
                    }),
                forall|j: int|
                    i <= j < start.tabs.len() ==> (#[trigger] self@.tabs[j]) == start.tabs[j],
        {
            let ghost before = self@;
            self.tabs[i].set_number((i + 1) as i32);
            assert(self@.tabs =~= before.tabs.update(
                i as int,
                TabState { number: i + 1, ..before.tabs[i as int] },
            ));
        }
        assert(self@.tabs =~= crate::state::renumbered(start.tabs));
    }

    /// Gives the panes of the active tab their sizes in the window.
    fn recompute_layout(&mut self) -> (actions: Vec<Action>)
        requires
            forall|i: int| 0 <= i < old(self)@.tabs.len() ==> (#[trigger] old(self)@.tabs[i]).wf(),
        ensures
            final(self)@ == old(self)@.relaid().state,
            crate::action::action_views(actions@) == old(self)@.relaid().actions,
    {
        let ghost start = self@;
        let window = cols_rows(self.config.window_width, self.config.window_height);
        if self.active_tab < self.tabs.len() {
            let active = self.active_tab;
            assert(start.tabs[active as int] == self.tabs@[active as int]@);
            let actions = self.tabs[active].relayout(window);
            assert(self@.tabs =~= start.relaid().state.tabs);
            actions
        } else {
            let actions: Vec<Action> = Vec::new();
            assert(crate::action::action_views(actions@) =~= seq![]);
            actions
        }
    }

    /// Opens a tab with one new pane and focuses it.
    fn open_tab(&mut self) -> (actions: Vec<Action>)
        requires
            old(self)@.tabs.len() < MAX_TABS,
            old(self)@.next_pane_id < u64::MAX,
        ensures
            final(self)@ == old(self)@.opened_tab().state,
            crate::action::action_views(actions@) == old(self)@.opened_tab().actions,
    {
        let ghost start = self@;
        let (cols, rows) = cols_rows(self.config.window_width, self.config.window_height);
        let pane = self.reserve_pane_id();
        let number: i32 = self.tabs.len() as i32 + 1;
        self.tabs.push(Tab::single(number, pane, cols, rows));
        self.active_tab = self.tabs.len() - 1;
        assert(self@.tabs =~= start.opened_tab().state.tabs);
        let actions = vec![Action::SpawnTerminal { pane, cols, rows }];
        assert(crate::action::action_views(actions@) =~= start.opened_tab().actions);
        actions
    }

    fn toggle_popup(&mut self, around: Surroundings) -> (actions: Vec<Action>)
        requires
            old(self)@.wf(),
            old(self)@.shortcut_opens_pane(Shortcut::TogglePopup) ==> old(self)@.next_pane_id
                < u64::MAX,
        ensures
            final(self)@ == old(self)@.toggle_popup(around).state,
            crate::action::action_views(actions@) == old(self)@.toggle_popup(around).actions,
    {
        let ghost start = self@;
        if let Some(id) = self.window_id.take() {
            let actions = vec![Action::DestroySurface(id)];
            assert(crate::action::action_views(actions@) =~= start.toggle_popup(around).actions);
            return actions;
        }
        self.window_id = Some(around.fresh_window);
        self.surface_opened_at = Some(around.now);
        let mut actions = if self.tabs.is_empty() {
            self.open_tab()
        } else {
            self.recompute_layout()
        };
        actions.push(
            Action::OpenSurface {
                window: around.fresh_window,
                width: self.config.window_width,
                height: self.config.window_height,
            },
        );
        assert(crate::action::action_views(actions@) =~= start.toggle_popup(around).actions);
        actions
    }

    /// Enters a text as the colour of `user@host`.
    fn user_host_color_input(&mut self, text: &str) -> (actions: Vec<Action>)
        requires
            crate::preferences::readable_color(text@),
        ensures
            final(self)@ == old(self)@.user_host_color_input(text@).state,
            crate::action::action_views(actions@) == old(self)@.user_host_color_input(
                text@,
            ).actions,
    {
        let mut actions: Vec<Action> = Vec::new();
        if let Some(color) = parse_hex_color(text) {
            self.config.user_host_color = color;
            actions.push(Action::SaveConfig(self.config));
        }
        assert(crate::action::action_views(actions@) =~= old(self)@.user_host_color_input(
            text@,
        ).actions);
        actions
    }

    /// Enters a text as the colour of the working directory.
    fn directory_color_input(&mut self, text: &str) -> (actions: Vec<Action>)
        requires
            crate::preferences::readable_color(text@),
        ensures
            final(self)@ == old(self)@.directory_color_input(text@).state,
            crate::action::action_views(actions@) == old(self)@.directory_color_input(
                text@,
            ).actions,
    {
        let mut actions: Vec<Action> = Vec::new();
        if let Some(color) = parse_hex_color(text) {
            self.config.directory_color = color;
            actions.push(Action::SaveConfig(self.config));
        }
        assert(crate::action::action_views(actions@) =~= old(self)@.directory_color_input(
            text@,
        ).actions);
        actions
    }

    fn just_opened(&self, now: u64, grace: u64) -> (just: bool)
        ensures
            just == self@.just_opened(now, grace),
    {
        match self.surface_opened_at {
            Some(since) => now.saturating_sub(since) < grace,
            None => false,
        }
    }

    /// Whether the surface `id` is the one that is shown.
    fn is_shown(&self, id: WindowId) -> (shown: bool)
        ensures
            shown == (self@.window_id == Some(id)),
    {
        match self.window_id {
            Some(window) => window == id,
            None => false,
        }
    }

    fn surface_unfocused(&mut self, id: WindowId, now: u64) -> (actions: Vec<Action>)
        ensures
            final(self)@ == old(self)@.surface_unfocused(id, now).state,
            crate::action::action_views(actions@) == old(self)@.surface_unfocused(id, now).actions,
    {
        let mut actions: Vec<Action> = Vec::new();
        if self.is_shown(id) && !self.pinned && !self.just_opened(now, UNFOCUS_GRACE) {
            self.window_id = None;
            actions.push(Action::DestroySurface(id));
        }
        assert(crate::action::action_views(actions@) =~= old(self)@.surface_unfocused(
            id,
            now,
        ).actions);
        actions
    }

    fn resized(&mut self, id: WindowId, width: u32, height: u32, now: u64) -> (actions: Vec<
        Action,
    >)
        requires
            old(self)@.wf(),
            old(self)@.window_id == Some(id) ==> old(self)@.resize_save_generation < u64::MAX,
        ensures
            final(self)@ == old(self)@.resized(id, width, height, now).state,
            crate::action::action_views(actions@) == old(self)@.resized(
                id,
                width,
                height,
                now,
            ).actions,
    {
        let ghost start = self@;
        if !self.is_shown(id) || self.just_opened(now, RESIZE_GRACE) {
            let actions: Vec<Action> = Vec::new();
            assert(crate::action::action_views(actions@) =~= seq![]);
            return actions;
        }
        self.config.set_size(width, height);
        self.resize_save_generation = self.resize_save_generation + 1;
        let ghost sized = self@;
        assert(forall|i: int| 0 <= i < sized.tabs.len() ==> sized.tabs[i] == start.tabs[i]);
        let mut actions = self.recompute_layout();
        actions.push(
            Action::ScheduleSave { generation: self.resize_save_generation, config: self.config },
        );
        assert(crate::action::action_views(actions@) =~= start.resized(
            id,
            width,
            height,
            now,
        ).actions);
        actions
    }

    /// The tab that the pane `id` is in.
    fn tab_of(&self, id: PaneId) -> (found: Option<usize>)
        requires
            self@.wf(),
        ensures
            match found {
                Some(i) => self@.holds(i as int, id) && self@.has_pane(id) && self@.tab_of(id) == i,
                None => !self@.has_pane(id),
            },
    {
        for i in 0..self.tabs.len()
            invariant
                self@.wf(),
                forall|j: int| j < i ==> !(#[trigger] self@.holds(j, id)),
        {
            assert(self@.tabs[i as int] == self.tabs@[i as int]@);
            if self.tabs[i].terminal(id).is_some() {
                assert(self@.holds(i as int, id));
                assert(self@.has_pane(id));
                return Some(i);
            }
        }
        None
    }

    fn terminal_updated(&self, id: PaneId) -> (actions: Vec<Action>)
        requires
            self@.wf(),
        ensures
            crate::action::action_views(actions@) == self@.terminal_updated(id).actions,
    {
        let mut actions: Vec<Action> = Vec::new();
        if let Some(i) = self.tab_of(id) {
            assert(self@.tabs[i as int] == self.tabs@[i as int]@);
            if let Some(terminal) = self.tabs[i].terminal(id) {
                actions.push(Action::Terminal(id, terminal.invalidate()));
            }
        }
        assert(crate::action::action_views(actions@) =~= self@.terminal_updated(id).actions);
        actions
    }

    fn split_pane(&mut self, direction: SplitDirection) -> (actions: Vec<Action>)
        requires
            old(self)@.wf(),
            old(self)@.split_opens_pane(direction) ==> old(self)@.next_pane_id < u64::MAX,
        ensures
            final(self)@ == old(self)@.split_pane(direction).state,
            crate::action::action_views(actions@) == old(self)@.split_pane(direction).actions,
    {
        let ghost start = self@;
        let mut actions: Vec<Action> = Vec::new();
        assert(crate::action::action_views(actions@) =~= seq![]);
        if self.active_tab >= self.tabs.len() {
            return actions;
        }
        let active = self.active_tab;
        let window = cols_rows(self.config.window_width, self.config.window_height);
        assert(start.active() == self.tabs@[active as int]@);
        let (cols, rows) = match self.tabs[active].room_for(direction, window) {
            Some(size) => size,
            None => {
                return actions;
            },
        };
        let pane = self.reserve_pane_id();
        proof {
            if start.active().panes.contains_key(pane) {
                assert(start.holds(active as int, pane));
            }
        }
        self.tabs[active].split(direction, pane, cols, rows);
        let ghost split = self@;
        assert(split.tabs =~= start.with_active(
            start.active().split(direction, pane, (cols, rows)),
        ).tabs);
        actions.push(Action::SpawnTerminal { pane, cols, rows });
        let mut laid_out = self.recompute_layout();
        let ghost first = actions@;
        let ghost second = laid_out@;
        actions.append(&mut laid_out);
        assert(crate::action::action_views(actions@) =~= crate::action::action_views(first)
            + crate::action::action_views(second));
        assert(crate::action::action_views(actions@) =~= start.split_pane(direction).actions);
        actions
    }

    fn close_pane(&mut self, id: PaneId) -> (actions: Vec<Action>)
        requires
            old(self)@.wf(),
        ensures
            final(self)@ == old(self)@.close_pane(id).state,
            crate::action::action_views(actions@) == old(self)@.close_pane(id).actions,
    {
        let ghost start = self@;
        match self.tab_of(id) {
            None => {
                let actions: Vec<Action> = Vec::new();
                assert(crate::action::action_views(actions@) =~= seq![]);
                actions
            },
            Some(i) => {
                assert(start.tabs[i as int] == self.tabs@[i as int]@);
                if self.tabs[i].pane_ids().len() <= 1 {
                    return self.close_tab(i);
                }
                let mut actions = self.tabs[i].remove_pane(id);
                assert(self@.tabs =~= start.tabs.update(
                    i as int,
                    start.tabs[i as int].without_pane(id),
                ));
                let mut laid_out = self.recompute_layout();
                let ghost first = actions@;
                let ghost second = laid_out@;
                actions.append(&mut laid_out);
                assert(crate::action::action_views(actions@) =~= crate::action::action_views(first)
                    + crate::action::action_views(second));
                assert(crate::action::action_views(actions@) =~= start.close_pane(id).actions);
                actions
            },
        }
    }

    fn select_pane(&mut self, id: PaneId)
        ensures
            final(self)@ == old(self)@.select_pane(id).state,
    {
        let ghost start = self@;
        if self.active_tab < self.tabs.len() {
            let active = self.active_tab;
            self.tabs[active].set_active_pane(id);
            assert(self@.tabs =~= start.select_pane(id).state.tabs);
        }
    }

    fn new_tab(&mut self) -> (actions: Vec<Action>)
        requires
            old(self)@.wf(),
            old(self)@.shortcut_opens_pane(Shortcut::NewTab) ==> old(self)@.next_pane_id < u64::MAX,
        ensures
            final(self)@ == old(self)@.new_tab().state,
            crate::action::action_views(actions@) == old(self)@.new_tab().actions,
    {
        if self.tabs.len() >= MAX_TABS {
            let actions: Vec<Action> = Vec::new();
            assert(crate::action::action_views(actions@) =~= seq![]);
            return actions;
        }
        self.open_tab()
    }

    fn close_tab(&mut self, idx: usize) -> (actions: Vec<Action>)
        requires
            old(self)@.wf(),
        ensures
            final(self)@ == old(self)@.close_tab(idx as int).state,
            crate::action::action_views(actions@) == old(self)@.close_tab(idx as int).actions,
    {
        let ghost start = self@;
        if idx >= self.tabs.len() {
            let actions: Vec<Action> = Vec::new();
            assert(crate::action::action_views(actions@) =~= seq![]);
            return actions;
        }
        let last = self.tabs.len() <= 1;
        assert(start.tabs[idx as int] == self.tabs@[idx as int]@);
        let tab = self.tabs.remove(idx);
        let mut actions = tab.shutdown();
        let ghost first = actions@;
        if last {
            if let Some(id) = self.window_id.take() {
                actions.push(Action::DestroySurface(id));
            }
            assert(self@.tabs =~= seq![]);
            assert(crate::action::action_views(actions@) =~= start.close_tab(idx as int).actions);
            return actions;
        }
        if self.active_tab >= self.tabs.len() {
            self.active_tab = self.tabs.len() - 1;
        } else if idx < self.active_tab {
            self.active_tab = self.active_tab - 1;
        }
        assert(self@.tabs =~= start.tabs.remove(idx as int));
        self.renumber_tabs();
        proof {
            assert forall|j: int| 0 <= j < self@.tabs.len() implies (#[trigger] self@.tabs[j]).wf() by {
                let back = if j < idx {
                    j
                } else {
                    j + 1
                };
                assert(start.tabs[back].wf());
            }
        }
        let mut laid_out = self.recompute_layout();
        let ghost second = laid_out@;
        actions.append(&mut laid_out);
        assert(crate::action::action_views(actions@) =~= crate::action::action_views(first)
            + crate::action::action_views(second));
        assert(crate::action::action_views(actions@) =~= start.close_tab(idx as int).actions);
        actions
    }

    fn select_tab(&mut self, idx: usize) -> (actions: Vec<Action>)
        requires
            old(self)@.wf(),
        ensures
            final(self)@ == old(self)@.select_tab(idx as int).state,
            crate::action::action_views(actions@) == old(self)@.select_tab(idx as int).actions,
    {
        if idx < self.tabs.len() {
            self.active_tab = idx;
            self.recompute_layout()
        } else {
            let actions: Vec<Action> = Vec::new();
            assert(crate::action::action_views(actions@) =~= seq![]);
            actions
        }
    }

    fn cycle_tab_next(&mut self) -> (actions: Vec<Action>)
        requires
            old(self)@.wf(),
        ensures
            final(self)@ == old(self)@.cycle_tab(1).state,
            crate::action::action_views(actions@) == old(self)@.cycle_tab(1).actions,
    {
        let len = self.tabs.len();
        if len == 0 {
            let actions: Vec<Action> = Vec::new();
            assert(crate::action::action_views(actions@) =~= seq![]);
            return actions;
        }
        self.select_tab((self.active_tab + 1) % len)
    }

    fn cycle_tab_prev(&mut self) -> (actions: Vec<Action>)
        requires
            old(self)@.wf(),
        ensures
            final(self)@ == old(self)@.cycle_tab(-1).state,
            crate::action::action_views(actions@) == old(self)@.cycle_tab(-1).actions,
    {
        let len = self.tabs.len();
        if len == 0 {
            let actions: Vec<Action> = Vec::new();
            assert(crate::action::action_views(actions@) =~= seq![]);
            return actions;
        }
        proof {
            vstd::arithmetic::div_mod::lemma_mod_add_multiples_vanish(
                self.active_tab - 1,
                len as int,
            );
        }
        self.select_tab((self.active_tab + len - 1) % len)
    }

    fn cycle_pane_next(&mut self)
        requires
            old(self)@.wf(),
        ensures
            final(self)@ == old(self)@.cycle_pane(1).state,
    {
        let ghost start = self@;
        if self.active_tab < self.tabs.len() {
            let active = self.active_tab;
            assert(start.active() == self.tabs@[active as int]@);
            self.tabs[active].cycle_next();
            assert(self@.tabs =~= start.cycle_pane(1).state.tabs);
        }
    }

    fn cycle_pane_prev(&mut self)
        requires
            old(self)@.wf(),
        ensures
            final(self)@ == old(self)@.cycle_pane(-1).state,
    {
        let ghost start = self@;
        if self.active_tab < self.tabs.len() {
            let active = self.active_tab;
            assert(start.active() == self.tabs@[active as int]@);
            self.tabs[active].cycle_prev();
            assert(self@.tabs =~= start.cycle_pane(-1).state.tabs);
        }
    }

    /// The terminal that keyboard input goes to, and its pane.
    fn focused_terminal(&self) -> (focused: Option<(PaneId, Terminal)>)
        ensures
            match focused {
                Some((id, _)) => self@.focused() == Some(id),
                None => self@.focused() is None,
            },
    {
        if self.active_tab < self.tabs.len() {
            let tab = &self.tabs[self.active_tab];
            assert(self@.active() == tab@);
            match tab.terminal(tab.active_pane()) {
                Some(terminal) => Some((tab.active_pane(), terminal)),
                None => None,
            }
        } else {
            None
        }
    }

    /// The pane that keyboard input goes to.
    pub fn focused_pane(&self) -> (focused: Option<PaneId>)
        ensures
            focused == self@.focused(),
    {
        match self.focused_terminal() {
            Some((id, _)) => Some(id),
            None => None,
        }
    }

    fn copy_selection(&self) -> (actions: Vec<Action>)
        ensures
            crate::action::action_views(actions@) == self@.copy_selection().actions,
    {
        let mut actions: Vec<Action> = Vec::new();
        if let Some(id) = self.focused_pane() {
            actions.push(Action::ReadSelection(id));
        }
        assert(crate::action::action_views(actions@) =~= self@.copy_selection().actions);
        actions
    }

    fn selection_read(&self, text: Option<String>) -> (actions: Vec<Action>)
        ensures
            crate::action::action_views(actions@) == self@.selection_read(text).actions,
    {
        let mut actions: Vec<Action> = Vec::new();
        if let Some(text) = text {
            actions.push(Action::WriteClipboard(text));
        }
        assert(crate::action::action_views(actions@) =~= self@.selection_read(text).actions);
        actions
    }

    fn clipboard_pasted(&self, content: Option<String>, mode: u32) -> (actions: Vec<Action>)
        ensures
            crate::action::action_views(actions@) == self@.clipboard_pasted(content, mode).actions,
    {
        let mut actions: Vec<Action> = Vec::new();
        if let Some(text) = &content {
            if let Some((id, terminal)) = self.focused_terminal() {
                actions.push(Action::Terminal(id, terminal.paste(text.as_str(), mode)));
            }
        }
        assert(crate::action::action_views(actions@) =~= self@.clipboard_pasted(
            content,
            mode,
        ).actions);
        actions
    }

    fn pane_scroll(&self, id: PaneId, lines: i32) -> (actions: Vec<Action>)
        requires
            self@.wf(),
        ensures
            crate::action::action_views(actions@) == self@.pane_scroll(id, lines).actions,
    {
        let mut actions: Vec<Action> = Vec::new();
        if let Some(i) = self.tab_of(id) {
            assert(self@.tabs[i as int] == self.tabs@[i as int]@);
            if let Some(terminal) = self.tabs[i].terminal(id) {
                if lines != 0 {
                    push_commands(&mut actions, id, terminal.scroll(lines));
                }
            }
        }
        assert(crate::action::action_views(actions@) =~= self@.pane_scroll(id, lines).actions);
        actions
    }

    fn do_shortcut(&mut self, shortcut: Shortcut, around: Surroundings) -> (actions: Vec<Action>)
        requires
            old(self)@.wf(),
            old(self)@.shortcut_opens_pane(shortcut) ==> old(self)@.next_pane_id < u64::MAX,
        ensures
            final(self)@ == old(self)@.shortcut(shortcut, around).state,
            crate::action::action_views(actions@) == old(self)@.shortcut(shortcut, around).actions,
    {
        let none: Vec<Action> = Vec::new();
        assert(crate::action::action_views(none@) =~= seq![]);
        match shortcut {
            Shortcut::TogglePopup => self.toggle_popup(around),
            Shortcut::SplitHorizontal => self.split_pane(SplitDirection::Horizontal),
            Shortcut::SplitVertical => self.split_pane(SplitDirection::Vertical),
            Shortcut::ClosePane => {
                if self.active_tab < self.tabs.len() {
                    assert(self@.active() == self.tabs@[self.active_tab as int]@);
                    self.close_pane(self.tabs[self.active_tab].active_pane())
                } else {
                    none
                }
            },
            Shortcut::NextPane => {
                self.cycle_pane_next();
                none
            },
            Shortcut::PreviousPane => {
                self.cycle_pane_prev();
                none
            },
            Shortcut::NewTab => self.new_tab(),
            Shortcut::CloseTab => self.close_tab(self.active_tab),
            Shortcut::NextTab => self.cycle_tab_next(),
            Shortcut::PreviousTab => self.cycle_tab_prev(),
            Shortcut::TogglePin => {
                self.pinned = !self.pinned;
                none
            },
            Shortcut::Copy => self.copy_selection(),
            Shortcut::Paste => {
                let actions = vec![Action::ReadClipboard];
                assert(crate::action::action_views(actions@) =~= self@.shortcut(
                    shortcut,
                    around,
                ).actions);
                actions
            },
        }
    }

    fn key_pressed(
        &mut self,
        key: Key,
        modifiers: Modifiers,
        text: Option<String>,
        around: Surroundings,
    ) -> (actions: Vec<Action>)
        requires
            old(self)@.wf(),
            old(self)@.opens_pane(Message::KeyPressed(key, modifiers, text)) ==> old(
                self,
            )@.next_pane_id < u64::MAX,
        ensures
            final(self)@ == old(self)@.key_pressed(key, modifiers, text, around).state,
            crate::action::action_views(actions@) == old(self)@.key_pressed(
                key,
                modifiers,
                text,
                around,
            ).actions,
    {
        if let Some(shortcut) = shortcut(&key, modifiers) {
            return self.do_shortcut(shortcut, around);
        }
        let mut actions: Vec<Action> = Vec::new();
        if let Some((id, terminal)) = self.focused_terminal() {
            let bytes = key_to_bytes(&key, modifiers, &text);
            if !bytes.is_empty() {
                actions.push(Action::Terminal(id, terminal.write_input(bytes.as_slice())));
            }
        }
        assert(crate::action::action_views(actions@) =~= self@.key_pressed(
            key,
            modifiers,
            text,
            around,
        ).actions);
        actions
    }

    /// Tells that a pane was drawn where `whole_cols` columns and `whole_rows` rows
    /// of cells fit entirely. The pane's terminal follows, with at least one of
    /// each; nothing is asked for where it has that size already, so that this may
    /// be called for every frame.
    pub fn measure(&mut self, id: PaneId, whole_cols: u32, whole_rows: u32) -> (actions: Vec<
        Action,
    >)
        requires
            old(self)@.wf(),
        ensures
            final(self)@ == old(self)@.measured(
                id,
                crate::layout::to_cells(whole_cols as int),
                crate::layout::to_cells(whole_rows as int),
            ).state,
            crate::action::action_views(actions@) == old(self)@.measured(
                id,
                crate::layout::to_cells(whole_cols as int),
                crate::layout::to_cells(whole_rows as int),
            ).actions,
            final(self)@.wf(),
    {
        let ghost start = self@;
        let cols = clamp_cells(whole_cols);
        let rows = clamp_cells(whole_rows);
        proof {
            crate::laws::order::lemma_measured(start, id, cols, rows);
        }
        match self.tab_of(id) {
            Some(i) => {
                assert(start.tabs[i as int] == self.tabs@[i as int]@);
                let actions = self.tabs[i].resize_pane(id, cols, rows);
                assert(self@.tabs =~= start.measured(id, cols, rows).state.tabs);
                actions
            },
            None => {
                let actions: Vec<Action> = Vec::new();
                assert(crate::action::action_views(actions@) =~= seq![]);
                actions
            },
        }
    }

    /// Whether a shortcut opens a pane.
    fn shortcut_opens_pane(&self, shortcut: Shortcut) -> (opens: bool)
        requires
            self@.wf(),
        ensures
            opens == self@.shortcut_opens_pane(shortcut),
    {
        match shortcut {
            Shortcut::TogglePopup => self.window_id.is_none() && self.tabs.is_empty(),
            Shortcut::SplitHorizontal => match self.active_tab() {
                Some(tab) => tab.can_split_horizontal(),
                None => false,
            },
            Shortcut::SplitVertical => match self.active_tab() {
                Some(tab) => tab.can_split_vertical(),
                None => false,
            },
            Shortcut::NewTab => self.tabs.len() < MAX_TABS,
            _ => false,
        }
    }

    /// Whether a message can be dealt with: the counters have room where they are
    /// needed, and an entered colour can be read.
    pub fn can_take(&self, message: &Message) -> (can: bool)
        requires
            self@.wf(),
        ensures
            can == self@.can_take(*message),
    {
        let opened_by = match message {
            Message::TogglePopup => Some(Shortcut::TogglePopup),
            Message::SplitPane(SplitDirection::Horizontal) => Some(Shortcut::SplitHorizontal),
            Message::SplitPane(SplitDirection::Vertical) => Some(Shortcut::SplitVertical),
            Message::NewTab => Some(Shortcut::NewTab),
            Message::KeyPressed(key, modifiers, _) => shortcut(key, *modifiers),
            _ => None,
        };
        let opens_pane = match opened_by {
            Some(shortcut) => self.shortcut_opens_pane(shortcut),
            None => false,
        };
        if opens_pane && self.next_pane_id == u64::MAX {
            return false;
        }
        match message {
            Message::Resized(id, _, _) => !self.is_shown(*id) || self.resize_save_generation
                < u64::MAX,
            Message::UserHostColorInput(text) => is_readable_color(text.as_str()),
            Message::DirectoryColorInput(text) => is_readable_color(text.as_str()),
            _ => true,
        }
    }

    /// Takes a message and answers with what is to be done, in order.
    pub fn update(&mut self, message: Message, around: Surroundings) -> (actions: Vec<Action>)
        requires
            old(self)@.wf(),
            old(self)@.can_take(message),
        ensures
            final(self)@ == old(self)@.step(message, around).state,
            crate::action::action_views(actions@) == old(self)@.step(message, around).actions,
            final(self)@.wf(),
    {
        proof {
            crate::laws::order::law_order_is_kept(self@, message, around);
        }
        let none: Vec<Action> = Vec::new();
        assert(crate::action::action_views(none@) =~= seq![]);
        match message {
            Message::TogglePopup => self.toggle_popup(around),
            Message::TogglePreferences => {
                self.showing_preferences = !self.showing_preferences;
                none
            },
            Message::UserHostColorInput(text) => self.user_host_color_input(text.as_str()),
            Message::DirectoryColorInput(text) => self.directory_color_input(text.as_str()),
            Message::SurfaceClosed(id) => {
                if self.is_shown(id) {
                    self.window_id = None;
                }
                none
            },
            Message::SurfaceUnfocused(id) => self.surface_unfocused(id, around.now),
            Message::TogglePin => self.do_shortcut(Shortcut::TogglePin, around),
            Message::Resized(id, width, height) => self.resized(id, width, height, around.now),
            Message::TerminalUpdated(id) => self.terminal_updated(id),
            Message::KeyPressed(key, modifiers, text) => self.key_pressed(
                key,
                modifiers,
                text,
                around,
            ),
            Message::SplitPane(direction) => self.split_pane(direction),
            Message::ClosePane(id) => self.close_pane(id),
            Message::SelectPane(id) => {
                self.select_pane(id);
                none
            },
            Message::NewTab => self.new_tab(),
            Message::CloseTab(idx) => self.close_tab(idx),
            Message::SelectTab(idx) => self.select_tab(idx),
            Message::CycleTabNext => self.cycle_tab_next(),
            Message::CycleTabPrev => self.cycle_tab_prev(),
            Message::CyclePaneNext => {
                self.cycle_pane_next();
                none
            },
            Message::CyclePanePrev => {
                self.cycle_pane_prev();
                none
            },
            Message::CopySelection => self.copy_selection(),
            Message::SelectionRead(text) => self.selection_read(text),
            Message::PasteClipboard => self.do_shortcut(Shortcut::Paste, around),
            Message::ClipboardPasted(content) => self.clipboard_pasted(
                content,
                around.focused_mode,
            ),
            Message::PaneScroll(id, lines) => self.pane_scroll(id, lines),
        }
    }

    pub fn config(&self) -> (config: AppConfig)
        ensures
            config == self@.config,
    {
        self.config
    }

    /// The surface that is shown, if one is.
    pub fn window_id(&self) -> (id: Option<WindowId>)
        ensures
            id == self@.window_id,
    {
        self.window_id
    }

    /// Whether the surface stays when it loses the focus.
    pub fn is_pinned(&self) -> (pinned: bool)
        ensures
            pinned == self@.pinned,
    {
        self.pinned
    }

    /// The tab that is shown, if there is one.
    pub fn active_tab(&self) -> (tab: Option<&Tab>)
        requires
            self@.wf(),
        ensures
            match tab {
                Some(tab) => self@.has_active_tab() && tab@ == self@.active() && tab@.wf(),
                None => !self@.has_active_tab(),
            },
    {
        if self.active_tab < self.tabs.len() {
            assert(self@.active() == self.tabs@[self.active_tab as int]@);
            Some(&self.tabs[self.active_tab])
        } else {
            None
        }
    }

    /// What the desktop's panel shows: an icon that shows and hides the drop-down.
    pub fn panel_icon(&self) -> (icon: PanelIcon)
        ensures
            icon.icon@ == "utilities-terminal-symbolic"@,
            icon.press == Message::TogglePopup,
    {
        PanelIcon { icon: "utilities-terminal-symbolic", press: Message::TogglePopup }
    }

    /// The tab bar.
    pub fn tab_bar(&self) -> (bar: TabBar)
        requires
            self@.wf(),
        ensures
            crate::view::is_tab_bar(bar, self@),
    {
        let mut tabs: Vec<TabEntry> = Vec::new();
        for i in 0..self.tabs.len()
            invariant
                self@.wf(),
                self@.tabs == tab_views(self.tabs@),
                tabs@.len() == i,
                forall|j: int|
                    0 <= j < i ==> (#[trigger] tabs@[j]) == crate::view::tab_entry(self@, j),
        {
            assert(self@.tabs[i as int] == self.tabs@[i as int]@);
            tabs.push(
                TabEntry {
                    is_active: i == self.active_tab,
                    title: ClickLabel {
                        label: Label::TabTitle(self.tabs[i].number()),
                        message: Some(Message::SelectTab(i)),
                    },
                    close: ClickLabel { label: Label::Close, message: Some(Message::CloseTab(i)) },
                },
            );
        }
        let active = self.active_tab();
        let mut horizontal: Option<Message> = None;
        let mut vertical: Option<Message> = None;
        if let Some(tab) = active {
            if tab.can_split_horizontal() {
                horizontal = Some(Message::SplitPane(SplitDirection::Horizontal));
            }
            if tab.can_split_vertical() {
                vertical = Some(Message::SplitPane(SplitDirection::Vertical));
            }
        }
        let mut controls = vec![
            ClickLabel { label: Label::SplitHorizontal, message: horizontal },
            ClickLabel { label: Label::SplitVertical, message: vertical },
        ];
        if let Some(tab) = active {
            controls.push(
                ClickLabel {
                    label: Label::Close,
                    message: Some(Message::ClosePane(tab.active_pane())),
                },
            );
        }
        assert(controls@ =~= crate::view::control_labels(self@));
        TabBar {
            preferences: ClickLabel {
                label: Label::Preferences,
                message: Some(Message::TogglePreferences),
            },
            tabs,
            new_tab: ClickLabel { label: Label::NewTab, message: Some(Message::NewTab) },
            controls,
        }
    }

    /// What the drop-down shows.
    pub fn view_window(&self) -> (view: WindowView)
        requires
            self@.wf(),
        ensures
            crate::view::is_window_view(view, self@),
    {
        match self.active_tab() {
            None => WindowView::Empty,
            Some(tab) => {
                if self.showing_preferences {
                    WindowView::Preferences {
                        tab_bar: self.tab_bar(),
                        panel: crate::preferences::view(&self.config),
                    }
                } else {
                    WindowView::Panes {
                        tab_bar: self.tab_bar(),
                        grid: tab.render_pane_grid(),
                        user_host_color: self.config.user_host_color,
                        directory_color: self.config.directory_color,
                    }
                }
            },
        }
    }

    /// The panes whose terminals have to be listened to: all of them, in all tabs.
    pub fn subscription(&self) -> (ids: Vec<PaneId>)
        requires
            self@.wf(),
        ensures
            forall|id: PaneId| #[trigger] ids@.contains(id) <==> self@.has_pane(id),
            ids@.no_duplicates(),
    {
        let mut ids: Vec<PaneId> = Vec::new();
        for i in 0..self.tabs.len()
            invariant
                self@.wf(),
                self@.tabs == tab_views(self.tabs@),
                ids@.no_duplicates(),
                forall|id: PaneId| #[trigger]
                    ids@.contains(id) <==> exists|j: int| j < i && self@.holds(j, id),
        {
            let ghost before = ids@;
            assert(self@.tabs[i as int] == self.tabs@[i as int]@);
            let mut more = self.tabs[i].pane_ids();
            let ghost added = more@;
            proof {
                let columns = self@.tabs[i as int].columns;
                crate::grid::lemma_flatten_members(columns);
                crate::grid::lemma_flatten_distinct(columns);
                assert forall|id: PaneId| #[trigger] added.contains(id) <==> self@.holds(
                    i as int,
                    id,
                ) by {
                    assert(self@.tabs[i as int].panes.contains_key(id) <==> crate::grid::in_grid(
                        columns,
                        id,
                    ));
                }
            }
            ids.append(&mut more);
            proof {
                assert(ids@ == before + added);
                assert forall|a: int, b: int|
                    0 <= a < ids@.len() && 0 <= b < ids@.len() && a != b implies ids@[a]
                    != ids@[b] by {
                    let (lo, hi) = if a < b {
                        (a, b)
                    } else {
                        (b, a)
                    };
                    if lo < before.len() && hi >= before.len() {
                        assert(before.contains(ids@[lo]));
                        assert(added[hi - before.len()] == ids@[hi]);
                        assert(added.contains(ids@[hi]));
                    } else if lo >= before.len() {
                        assert(added[lo - before.len()] == ids@[lo]);
                        assert(added[hi - before.len()] == ids@[hi]);
                    }
                }
                assert forall|id: PaneId| #[trigger] ids@.contains(id) <==> exists|j: int|
                    j < i + 1 && self@.holds(j, id) by {
                    if ids@.contains(id) {
                        let k = ids@.index_of(id);
                        assert(ids@[k] == id);
                        if k < before.len() {
                            assert(before[k] == id);
                            assert(before.contains(id));
                        } else {
                            assert(added[k - before.len()] == id);
                            assert(added.contains(id));
                            assert(self@.holds(i as int, id));
                        }
                    }
                    if exists|j: int| j < i + 1 && self@.holds(j, id) {
                        let j = choose|j: int| j < i + 1 && self@.holds(j, id);
                        if j < i {
                            assert(before.contains(id));
                            let k = before.index_of(id);
                            assert(ids@[k] == id);
                        } else {
                            assert(added.contains(id));
                            let k = added.index_of(id);
                            assert(ids@[before.len() + k] == id);
                        }
                    }
                }
            }
        }
        proof {
            assert forall|id: PaneId| #[trigger] ids@.contains(id) <==> self@.has_pane(id) by {
                if self@.has_pane(id) {
                    let j = self@.tab_of(id);
                    assert(self@.holds(j, id));
                }
            }
        }
        ids
    }
}

/// Whether settings that a resize scheduled for saving are still to be saved once
/// they have waited: no later resize may have come in between. `latest` is the
/// number of the last resize.
pub fn resize_save_due(latest: u64, generation: u64) -> (due: bool)
    ensures
        due == crate::state::save_due(latest, generation),
{
    latest == generation
}

} // verus!
