//! What the drop-down shows, and what a click on each part of it means.

use crate::config::Rgb;
use crate::message::Message;
use crate::pane::{PaneId, SplitDirection};
use crate::preferences::PreferencesView;
use crate::state::AppState;
use crate::tab::TabState;
use vstd::prelude::*;

verus! {

/// The icon in the desktop's panel.
#[derive(Debug, Clone)]
pub struct PanelIcon {
    /// The icon's name in the desktop's theme.
    pub icon: &'static str,
    /// What pressing it means.
    pub press: Message,
}

/// Among which surfaces of the desktop one is shown.
#[derive(Debug, Clone, Copy, PartialEq, Eq, Structural)]
pub enum SurfaceLayer {
    Background,
    Bottom,
    Top,
    Overlay,
}

/// When a surface gets the keyboard.
#[derive(Debug, Clone, Copy, PartialEq, Eq, Structural)]
pub enum KeyboardUse {
    Never,
    Always,
    /// When the user turns to it.
    OnDemand,
}

/// Where and how the drop-down's surface is shown.
#[derive(Debug, Clone, Copy, PartialEq, Eq, Structural)]
pub struct SurfacePlacement {
    pub layer: SurfaceLayer,
    /// The edges of the screen that it is fastened to.
    pub top: bool,
    pub bottom: bool,
    pub left: bool,
    pub right: bool,
    pub keyboard: KeyboardUse,
    /// How many pixels other windows leave free for it.
    pub exclusive_zone: i32,
}

/// The drop-down hangs from the top of the screen, between its sides and above
/// other windows, which leave no room for it; it gets the keyboard when the user
/// turns to it.
pub fn surface_placement() -> (placement: SurfacePlacement)
    ensures
        placement == (SurfacePlacement {
            layer: SurfaceLayer::Top,
            top: true,
            bottom: false,
            left: true,
            right: true,
            keyboard: KeyboardUse::OnDemand,
            exclusive_zone: 0,
        }),
{
    SurfacePlacement {
        layer: SurfaceLayer::Top,
        top: true,
        bottom: false,
        left: true,
        right: true,
        keyboard: KeyboardUse::OnDemand,
        exclusive_zone: 0,
    }
}

/// What a label says.
#[derive(Debug, Clone, Copy, PartialEq, Eq, Structural)]
pub enum Label {
    Preferences,
    /// A tab's title, which has this number in it.
    TabTitle(i32),
    Close,
    NewTab,
    SplitHorizontal,
    SplitVertical,
}

impl Label {
    /// The label's symbol; a tab's title has none, since it is translated.
    pub fn symbol(&self) -> (symbol: Option<&'static str>)
        ensures
            match *self {
                Label::Preferences => symbol matches Some(s) && s@ == "⚙"@,
                Label::TabTitle(_) => symbol is None,
                Label::Close => symbol matches Some(s) && s@ == "×"@,
                Label::NewTab => symbol matches Some(s) && s@ == "+"@,
                Label::SplitHorizontal => symbol matches Some(s) && s@ == "↔"@,
                Label::SplitVertical => symbol matches Some(s) && s@ == "↕"@,
            },
    {
        match self {
            Label::Preferences => Some("⚙"),
            Label::TabTitle(_) => None,
            Label::Close => Some("×"),
            Label::NewTab => Some("+"),
            Label::SplitHorizontal => Some("↔"),
            Label::SplitVertical => Some("↕"),
        }
    }
}

/// A label that can be clicked, unless it is faded.
#[derive(Debug, Clone)]
pub struct ClickLabel {
    pub label: Label,
    /// What a click means; none where the label is faded.
    pub message: Option<Message>,
}

impl ClickLabel {
    pub fn enabled(&self) -> (enabled: bool)
        ensures
            enabled == self.message is Some,
    {
        self.message.is_some()
    }
}

/// A tab in the tab bar.
#[derive(Debug, Clone)]
pub struct TabEntry {
    pub is_active: bool,
    pub title: ClickLabel,
    pub close: ClickLabel,
}

/// The tab bar.
#[derive(Debug, Clone)]
pub struct TabBar {
    pub preferences: ClickLabel,
    pub tabs: Vec<TabEntry>,
    pub new_tab: ClickLabel,
    /// The splits of the focused pane, and its end.
    pub controls: Vec<ClickLabel>,
}

/// A pane in the grid.
#[derive(Debug, Clone)]
pub struct PaneCell {
    pub id: PaneId,
    /// Whether the pane's frame is drawn as that of the focused one.
    pub is_active: bool,
    /// What a click means.
    pub press: Message,
}

/// The drop-down's content.
#[derive(Debug)]
pub enum WindowView {
    Empty,
    Preferences { tab_bar: TabBar, panel: PreferencesView },
    Panes {
        tab_bar: TabBar,
        /// The panes, column by column; a place whose pane has no terminal is empty.
        grid: Vec<Vec<Option<PaneCell>>>,
        user_host_color: Rgb,
        directory_color: Rgb,
    },
}

/// The entry of the tab `i`.
pub open spec fn tab_entry(state: AppState, i: int) -> TabEntry {
    TabEntry {
        is_active: i == state.active_tab,
        title: ClickLabel {
            label: Label::TabTitle(state.tabs[i].number as i32),
            message: Some(Message::SelectTab(i as usize)),
        },
        close: ClickLabel { label: Label::Close, message: Some(Message::CloseTab(i as usize)) },
    }
}

/// The label for a split, which is faded where there is no room.
pub open spec fn split_label(state: AppState, label: Label, direction: SplitDirection) -> ClickLabel {
    ClickLabel {
        label,
        message: if state.split_opens_pane(direction) {
            Some(Message::SplitPane(direction))
        } else {
            None
        },
    }
}

/// The labels to the right of the tabs.
pub open spec fn control_labels(state: AppState) -> Seq<ClickLabel> {
    seq![
        split_label(state, Label::SplitHorizontal, SplitDirection::Horizontal),
        split_label(state, Label::SplitVertical, SplitDirection::Vertical),
    ] + if state.has_active_tab() {
        seq![
            ClickLabel {
                label: Label::Close,
                message: Some(Message::ClosePane(state.active().active_pane)),
            },
        ]
    } else {
        seq![]
    }
}

/// Whether `bar` is the tab bar of `state`.
pub open spec fn is_tab_bar(bar: TabBar, state: AppState) -> bool {
    &&& bar.preferences == (ClickLabel {
        label: Label::Preferences,
        message: Some(Message::TogglePreferences),
    })
    &&& bar.tabs@.len() == state.tabs.len()
    &&& forall|i: int| 0 <= i < state.tabs.len() ==> (#[trigger] bar.tabs@[i]) == tab_entry(state, i)
    &&& bar.new_tab == (ClickLabel { label: Label::NewTab, message: Some(Message::NewTab) })
    &&& bar.controls@ == control_labels(state)
}

/// The cell of the pane `id`, if the pane has a terminal.
pub open spec fn pane_cell(tab: TabState, id: PaneId) -> Option<PaneCell> {
    if tab.panes.contains_key(id) {
        Some(PaneCell { id, is_active: id == tab.active_pane, press: Message::SelectPane(id) })
    } else {
        None
    }
}

/// Whether `grid` shows the panes of `tab`, each in its place.
pub open spec fn is_pane_grid(grid: Seq<Vec<Option<PaneCell>>>, tab: TabState) -> bool {
    &&& grid.len() == tab.columns.len()
    &&& forall|c: int|
        0 <= c < grid.len() ==> (#[trigger] grid[c])@ == tab.columns[c].map_values(
            |id: PaneId| pane_cell(tab, id),
        )
}

/// In a tab that is in order no place of the grid is empty.
pub proof fn law_no_place_is_empty(tab: TabState, c: int, r: int)
    requires
        tab.wf(),
        0 <= c < tab.columns.len(),
        0 <= r < tab.columns[c].len(),
    ensures
        pane_cell(tab, tab.columns[c][r]) is Some,
{
    assert(crate::grid::at(tab.columns, c, r, tab.columns[c][r]));
    assert(crate::grid::in_grid(tab.columns, tab.columns[c][r]));
}

/// Whether `view` is what the drop-down shows in `state`: nothing without a tab,
/// else the tab bar, and below it the preferences or the active tab's panes.
pub open spec fn is_window_view(view: WindowView, state: AppState) -> bool {
    if !state.has_active_tab() {
        view is Empty
    } else if state.showing_preferences {
        view matches WindowView::Preferences { tab_bar, panel } && {
            &&& is_tab_bar(tab_bar, state)
            &&& crate::preferences::is_panel(panel, state.config)
        }
    } else {
        view matches WindowView::Panes { tab_bar, grid, user_host_color, directory_color } && {
            &&& is_tab_bar(tab_bar, state)
            &&& is_pane_grid(grid@, state.active())
            &&& user_host_color == state.config.user_host_color
            &&& directory_color == state.config.directory_color
        }
    }
}

} // verus!
