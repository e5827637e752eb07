//! What the drop-down shows, and what clicks on it mean.

use crate::message::Message;
use crate::pane::{PaneId, SplitDirection};
use crate::state::{AppState, Surroundings};
use crate::tab::TabState;
use crate::view::{Label, PaneCell, TabBar, WindowView};
use vstd::prelude::*;

verus! {

/// The tab bar has an entry for each tab, in order, with the tab's number, marked
/// where the tab is the active one. A click on its title chooses it and a click on its
/// cross closes it.
pub proof fn law_tab_bar_has_every_tab(bar: TabBar, s: AppState, i: int)
    requires
        s.wf(),
        crate::view::is_tab_bar(bar, s),
        0 <= i < s.tabs.len(),
    ensures
        bar.tabs@.len() == s.tabs.len(),
        bar.tabs@[i].is_active <==> i == s.active_tab,
        bar.tabs@[i].title.label == Label::TabTitle((i + 1) as i32),
        bar.tabs@[i].title.message == Some(Message::SelectTab(i as usize)),
        bar.tabs@[i].close.label == Label::Close,
        bar.tabs@[i].close.message == Some(Message::CloseTab(i as usize)),
{
    assert(s.tabs[i].number == i + 1);
}

/// Before the tabs is the way to the preferences, and after them the way to a new tab.
pub proof fn law_tab_bar_has_preferences_and_new_tab(bar: TabBar, s: AppState)
    requires
        crate::view::is_tab_bar(bar, s),
    ensures
        bar.tabs@.len() == s.tabs.len(),
        bar.preferences.label == Label::Preferences,
        bar.preferences.message == Some(Message::TogglePreferences),
        bar.new_tab.label == Label::NewTab,
        bar.new_tab.message == Some(Message::NewTab),
{
}

/// The controls are the two splits, and, where there is a tab, a cross that closes its
/// focused pane.
pub proof fn law_tab_bar_has_controls(bar: TabBar, s: AppState)
    requires
        s.wf(),
        crate::view::is_tab_bar(bar, s),
    ensures
        s.tabs.len() == 0 ==> bar.controls@.len() == 2,
        s.tabs.len() > 0 ==> {
            &&& bar.controls@.len() == 3
            &&& bar.controls@[2].label == Label::Close
            &&& bar.controls@[2].message == Some(
                Message::ClosePane(s.tabs[s.active_tab].active_pane),
            )
        },
        bar.controls@[0].label == Label::SplitHorizontal,
        bar.controls@[1].label == Label::SplitVertical,
        bar.controls@[0].message is Some ==> bar.controls@[0].message == Some(
            Message::SplitPane(SplitDirection::Horizontal),
        ),
        bar.controls@[1].message is Some ==> bar.controls@[1].message == Some(
            Message::SplitPane(SplitDirection::Vertical),
        ),
{
}

/// A split can be clicked exactly where it would open a pane.
pub proof fn law_faded_splits_do_nothing(bar: TabBar, s: AppState, around: Surroundings)
    requires
        s.wf(),
        s.next_pane_id < u64::MAX,
        crate::view::is_tab_bar(bar, s),
    ensures
        bar.controls@[0].message is Some <==> s.step(
            Message::SplitPane(SplitDirection::Horizontal),
            around,
        ).state.next_pane_id != s.next_pane_id,
        bar.controls@[1].message is Some <==> s.step(
            Message::SplitPane(SplitDirection::Vertical),
            around,
        ).state.next_pane_id != s.next_pane_id,
{
}

/// Every place of the grid shows the pane that is there, framed where it has the
/// focus, and a click on it chooses it.
pub proof fn law_grid_shows_every_pane(
    grid: Seq<Vec<Option<PaneCell>>>,
    tab: TabState,
    c: int,
    r: int,
)
    requires
        tab.wf(),
        crate::view::is_pane_grid(grid, tab),
        0 <= c < tab.columns.len(),
        0 <= r < tab.columns[c].len(),
    ensures
        grid.len() == tab.columns.len(),
        grid[c]@.len() == tab.columns[c].len(),
        grid[c]@[r] matches Some(cell) && {
            &&& cell.id == tab.columns[c][r]
            &&& cell.is_active <==> cell.id == tab.active_pane
            &&& cell.press == Message::SelectPane(cell.id)
        },
{
    crate::view::law_no_place_is_empty(tab, c, r);
    assert(grid[c]@ == tab.columns[c].map_values(|id: PaneId| crate::view::pane_cell(tab, id)));
}

/// A place whose pane has no terminal is empty.
pub proof fn law_pane_without_terminal_is_not_shown(tab: TabState, id: PaneId)
    ensures
        crate::view::pane_cell(tab, id) is Some <==> tab.panes.contains_key(id),
        crate::view::pane_cell(tab, id) matches Some(cell) ==> {
            &&& cell.id == id
            &&& cell.is_active <==> id == tab.active_pane
            &&& cell.press == Message::SelectPane(id)
        },
{
}

/// Without tabs nothing is shown. Else the tab bar is, and below it the preferences
/// while they are switched on, or the active tab's panes with the colours of the
/// settings.
pub proof fn law_window_shows_tabs_and_panes(view: WindowView, s: AppState)
    requires
        s.wf(),
        crate::view::is_window_view(view, s),
    ensures
        s.tabs.len() == 0 ==> view is Empty,
        s.tabs.len() > 0 && s.showing_preferences ==> (view matches WindowView::Preferences {
            tab_bar,
            panel,
        } && crate::view::is_tab_bar(tab_bar, s) && crate::preferences::is_panel(panel, s.config)),
        s.tabs.len() > 0 && !s.showing_preferences ==> (view matches WindowView::Panes {
            tab_bar,
            grid,
            user_host_color,
            directory_color,
        } && crate::view::is_tab_bar(tab_bar, s) && crate::view::is_pane_grid(
            grid@,
            s.tabs[s.active_tab],
        ) && user_host_color == s.config.user_host_color && directory_color
            == s.config.directory_color),
{
}

} // verus!
