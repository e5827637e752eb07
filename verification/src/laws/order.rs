//! The state stays in order, whatever happens.

use crate::keys::Shortcut;
use crate::message::Message;
use crate::pane::{PaneId, SplitDirection};
use crate::state::{AppState, Surroundings, MAX_TABS};
use crate::tab::TabState;
use vstd::prelude::*;

verus! {

/// Putting another tab in the place of the tab `i` keeps the state in order, if
/// the tab is and brings no pane but new ones.
proof fn lemma_tab_replaced(before: AppState, after: AppState, i: int)
    requires
        before.wf(),
        0 <= i < before.tabs.len(),
        after.tabs.len() == before.tabs.len(),
        forall|j: int|
            0 <= j < before.tabs.len() && j != i ==> (#[trigger] after.tabs[j]) == before.tabs[j],
        after.tabs[i].wf(),
        after.tabs[i].number == before.tabs[i].number,
        after.active_tab == before.active_tab,
        after.next_pane_id >= before.next_pane_id,
        forall|id: PaneId| #[trigger]
            after.tabs[i].panes.contains_key(id) ==> before.tabs[i].panes.contains_key(id) || (
            before.next_pane_id <= id < after.next_pane_id),
    ensures
        after.wf(),
{
    assert forall|j: int, id: PaneId| #[trigger] after.holds(j, id) implies before.holds(j, id) || (
    j == i && before.next_pane_id <= id < after.next_pane_id) by {
        if j != i {
            assert(after.tabs[j] == before.tabs[j]);
        }
    }
    assert forall|j: int| 0 <= j < after.tabs.len() implies (#[trigger] after.tabs[j]).wf() by {
        if j != i {
            assert(after.tabs[j] == before.tabs[j]);
        }
    }
    assert forall|j: int| 0 <= j < after.tabs.len() implies (#[trigger] after.tabs[j]).number == j
        + 1 by {
        if j != i {
            assert(after.tabs[j] == before.tabs[j]);
        }
    }
}

/// Laying out keeps a tab in order, with its panes and its focus.
proof fn lemma_laid_out(tab: TabState, window: (u16, u16))
    requires
        tab.wf(),
    ensures
        tab.laid_out(window).wf(),
        forall|id: PaneId| #[trigger]
            tab.laid_out(window).panes.contains_key(id) <==> tab.panes.contains_key(id),
        tab.laid_out(window).focus_ok() == tab.focus_ok(),
{
    assert forall|id: PaneId| #[trigger]
        tab.laid_out(window).panes.contains_key(id) <==> tab.panes.contains_key(id) by {}
}

/// Laying out keeps the state in order.
proof fn lemma_relaid(s: AppState)
    requires
        s.wf(),
    ensures
        s.relaid().state.wf(),
        s.focus_ok() ==> s.relaid().state.focus_ok(),
        s.relaid().state.config == s.config,
{
    if s.has_active_tab() {
        lemma_laid_out(s.active(), s.window_cells());
        lemma_tab_replaced(s, s.relaid().state, s.active_tab);
        if s.focus_ok() {
            assert forall|i: int| 0 <= i < s.tabs.len() implies (
            #[trigger] s.relaid().state.tabs[i]).focus_ok() by {
                assert(s.tabs[i].focus_ok());
            }
        }
    }
}

proof fn lemma_opened_tab(s: AppState)
    requires
        s.wf(),
        s.tabs.len() < MAX_TABS,
        s.next_pane_id < u64::MAX,
    ensures
        s.opened_tab().state.wf(),
        s.focus_ok() ==> s.opened_tab().state.focus_ok(),
{
    let after = s.opened_tab().state;
    let id = s.next_pane_id;
    let n = s.tabs.len() as int;
    crate::tab::lemma_single_wf(n + 1, id, s.window_cells());
    assert forall|i: int, x: PaneId| #[trigger] after.holds(i, x) implies s.holds(i, x) || (i == n
        && x == id) by {
        if i < n {
            assert(after.tabs[i] == s.tabs[i]);
        }
    }
    assert forall|i: int| 0 <= i < after.tabs.len() implies (#[trigger] after.tabs[i]).wf() by {
        if i < n {
            assert(after.tabs[i] == s.tabs[i]);
        }
    }
    assert forall|i: int| 0 <= i < after.tabs.len() implies (#[trigger] after.tabs[i]).number == i
        + 1 by {
        if i < n {
            assert(after.tabs[i] == s.tabs[i]);
        }
    }
    if s.focus_ok() {
        assert forall|i: int| 0 <= i < after.tabs.len() implies (
        #[trigger] after.tabs[i]).focus_ok() by {
            if i < n {
                assert(after.tabs[i] == s.tabs[i]);
            }
        }
    }
}

proof fn lemma_toggle_popup(s: AppState, around: Surroundings)
    requires
        s.wf(),
        s.shortcut_opens_pane(Shortcut::TogglePopup) ==> s.next_pane_id < u64::MAX,
    ensures
        s.toggle_popup(around).state.wf(),
        s.focus_ok() ==> s.toggle_popup(around).state.focus_ok(),
{
    match s.window_id {
        Some(_) => {
            assert(same_panes(s, s.toggle_popup(around).state));
        },
        None => {
            let shown = AppState {
                window_id: Some(around.fresh_window),
                surface_opened_at: Some(around.now),
                ..s
            };
            assert(same_panes(s, shown));
            if s.tabs.len() == 0 {
                lemma_opened_tab(shown);
            } else {
                lemma_relaid(shown);
            }
        },
    }
}

/// Two states with the same tabs hold the same panes.
spec fn same_panes(s: AppState, t: AppState) -> bool {
    forall|i: int, id: PaneId| #[trigger] t.holds(i, id) == s.holds(i, id)
}

proof fn lemma_split_pane(s: AppState, direction: SplitDirection)
    requires
        s.wf(),
        s.split_opens_pane(direction) ==> s.next_pane_id < u64::MAX,
    ensures
        s.split_pane(direction).state.wf(),
        s.focus_ok() ==> s.split_pane(direction).state.focus_ok(),
{
    if s.has_active_tab() && s.active().can_split(direction) {
        let id = s.next_pane_id;
        let size = s.active().split_size(direction, s.window_cells());
        assert(!s.active().panes.contains_key(id)) by {
            assert(s.active().panes.contains_key(id) ==> s.holds(s.active_tab, id));
        }
        crate::tab::lemma_split_wf(s.active(), direction, id, size);
        let tab = s.active().split(direction, id, size);
        let after = AppState { next_pane_id: (id + 1) as PaneId, ..s.with_active(tab) };
        lemma_tab_replaced(s, after, s.active_tab);
        assert forall|i: int| s.focus_ok() && 0 <= i < after.tabs.len() implies (
        #[trigger] after.tabs[i]).focus_ok() by {
            assert(s.tabs[i].focus_ok());
        }
        lemma_relaid(after);
    }
}

/// Taking a pane out keeps a tab in order.
pub(crate) proof fn lemma_without_pane(tab: TabState, id: PaneId)
    requires
        tab.wf(),
        tab.panes.contains_key(id),
        tab.columns.flatten().len() > 1,
    ensures
        tab.without_pane(id).wf(),
        tab.without_pane(id).focus_ok(),
{
    crate::grid::lemma_without(tab.columns, id);
    crate::grid::lemma_flatten_first(crate::grid::without(tab.columns, id));
    let after = tab.without_pane(id);
    assert(after.wf());
    assert(crate::grid::in_grid(after.columns, after.active_pane));
}

proof fn lemma_close_tab(s: AppState, idx: int)
    requires
        s.wf(),
    ensures
        s.close_tab(idx).state.wf(),
        s.focus_ok() ==> s.close_tab(idx).state.focus_ok(),
{
    if 0 <= idx < s.tabs.len() && s.tabs.len() > 1 {
        let left = s.tabs.remove(idx);
        let after = AppState {
            tabs: crate::state::renumbered(left),
            active_tab: crate::state::focus_after_close(s.active_tab, idx, s.tabs.len() - 1),
            ..s
        };
        // Where a tab that is left was before.
        let back = |j: int| if j < idx {
            j
        } else {
            j + 1
        };
        assert forall|j: int| 0 <= j < after.tabs.len() implies (#[trigger] after.tabs[j])
            == (TabState { number: j + 1, ..s.tabs[back(j)] }) by {}
        assert forall|j: int| 0 <= j < after.tabs.len() implies (#[trigger] after.tabs[j]).wf() by {
            assert(s.tabs[back(j)].wf());
        }
        assert forall|j: int, id: PaneId| #[trigger] after.holds(j, id) implies s.holds(
            back(j),
            id,
        ) by {}
        assert forall|i: int, j: int, id: PaneId| #[trigger]
            after.holds(i, id) && #[trigger] after.holds(j, id) implies i == j by {
            assert(s.holds(back(i), id));
            assert(s.holds(back(j), id));
        }
        assert(after.wf());
        assert forall|j: int| s.focus_ok() && 0 <= j < after.tabs.len() implies (
        #[trigger] after.tabs[j]).focus_ok() by {
            assert(s.tabs[back(j)].focus_ok());
        }
        lemma_relaid(after);
    }
}

proof fn lemma_close_pane(s: AppState, id: PaneId)
    requires
        s.wf(),
    ensures
        s.close_pane(id).state.wf(),
        s.focus_ok() ==> s.close_pane(id).state.focus_ok(),
{
    if s.has_pane(id) {
        let i = s.tab_of(id);
        assert(s.holds(i, id));
        if s.tabs[i].columns.flatten().len() <= 1 {
            lemma_close_tab(s, i);
        } else {
            lemma_without_pane(s.tabs[i], id);
            let after = AppState { tabs: s.tabs.update(i, s.tabs[i].without_pane(id)), ..s };
            lemma_tab_replaced(s, after, i);
            assert forall|j: int| s.focus_ok() && 0 <= j < after.tabs.len() implies (
            #[trigger] after.tabs[j]).focus_ok() by {
                assert(s.tabs[j].focus_ok());
            }
            lemma_relaid(after);
        }
    }
}

proof fn lemma_select_tab(s: AppState, idx: int)
    requires
        s.wf(),
    ensures
        s.select_tab(idx).state.wf(),
        s.focus_ok() ==> s.select_tab(idx).state.focus_ok(),
{
    if 0 <= idx < s.tabs.len() {
        let after = AppState { active_tab: idx, ..s };
        assert(same_panes(s, after));
        lemma_relaid(after);
    }
}

proof fn lemma_cycle_pane(s: AppState, step: int)
    requires
        s.wf(),
    ensures
        s.cycle_pane(step).state.wf(),
        s.focus_ok() ==> s.cycle_pane(step).state.focus_ok(),
{
    if s.has_active_tab() {
        let tab = s.active().cycled(step);
        let after = s.with_active(tab);
        lemma_tab_replaced(s, after, s.active_tab);
        crate::grid::lemma_flatten_members(s.active().columns);
        assert forall|j: int| s.focus_ok() && 0 <= j < after.tabs.len() implies (
        #[trigger] after.tabs[j]).focus_ok() by {
            assert(s.tabs[j].focus_ok());
            if j == s.active_tab {
                let ids = s.active().columns.flatten();
                let k = (ids.index_of(s.active().active_pane) + step) % (ids.len() as int);
                assert(ids.contains(s.active().active_pane));
                assert(0 <= k < ids.len());
                assert(ids.contains(ids[k]));
            }
        }
    }
}

/// Taking over a pane's size keeps the state in order.
pub(crate) proof fn lemma_measured(s: AppState, id: PaneId, cols: u16, rows: u16)
    requires
        s.wf(),
    ensures
        s.measured(id, cols, rows).state.wf(),
{
    if s.has_pane(id) {
        let i = s.tab_of(id);
        assert(s.holds(i, id));
        let after = s.measured(id, cols, rows).state;
        assert forall|x: PaneId| #[trigger] after.tabs[i].panes.contains_key(x) <==> s.tabs[i].panes.contains_key(x) by {}
        lemma_tab_replaced(s, after, i);
    }
}

proof fn lemma_shortcut(s: AppState, shortcut: Shortcut, around: Surroundings)
    requires
        s.wf(),
        s.shortcut_opens_pane(shortcut) ==> s.next_pane_id < u64::MAX,
    ensures
        s.shortcut(shortcut, around).state.wf(),
        s.focus_ok() ==> s.shortcut(shortcut, around).state.focus_ok(),
{
    match shortcut {
        Shortcut::TogglePopup => lemma_toggle_popup(s, around),
        Shortcut::SplitHorizontal => lemma_split_pane(s, SplitDirection::Horizontal),
        Shortcut::SplitVertical => lemma_split_pane(s, SplitDirection::Vertical),
        Shortcut::ClosePane => if s.has_active_tab() {
            lemma_close_pane(s, s.active().active_pane);
        },
        Shortcut::NextPane => lemma_cycle_pane(s, 1),
        Shortcut::PreviousPane => lemma_cycle_pane(s, -1),
        Shortcut::NewTab => if s.tabs.len() < MAX_TABS {
            lemma_opened_tab(s);
        },
        Shortcut::CloseTab => lemma_close_tab(s, s.active_tab),
        Shortcut::NextTab => if s.tabs.len() > 0 {
            lemma_select_tab(s, (s.active_tab + 1) % (s.tabs.len() as int));
        },
        Shortcut::PreviousTab => if s.tabs.len() > 0 {
            lemma_select_tab(s, (s.active_tab - 1) % (s.tabs.len() as int));
        },
        Shortcut::TogglePin => {
            assert(same_panes(s, s.shortcut(shortcut, around).state));
        },
        Shortcut::Copy => {},
        Shortcut::Paste => {},
    }
}

/// Whatever happens, the tabs stay in order: never more than fifteen, numbered
/// from one, with never more than four columns of four panes; one of them is
/// active; and every pane is in one place only.
pub proof fn law_order_is_kept(s: AppState, message: Message, around: Surroundings)
    requires
        s.wf(),
        s.can_take(message),
    ensures
        s.step(message, around).state.wf(),
{
    let after = s.step(message, around).state;
    match message {
        Message::KeyPressed(key, modifiers, text) => {
            match crate::keys::shortcut_of(key, modifiers) {
                Some(shortcut) => lemma_shortcut(s, shortcut, around),
                None => {},
            }
        },
        Message::TogglePopup => lemma_toggle_popup(s, around),
        Message::SplitPane(direction) => lemma_split_pane(s, direction),
        Message::ClosePane(id) => lemma_close_pane(s, id),
        Message::NewTab => lemma_shortcut(s, Shortcut::NewTab, around),
        Message::CloseTab(idx) => lemma_close_tab(s, idx as int),
        Message::SelectTab(idx) => lemma_select_tab(s, idx as int),
        Message::CycleTabNext => lemma_shortcut(s, Shortcut::NextTab, around),
        Message::CycleTabPrev => lemma_shortcut(s, Shortcut::PreviousTab, around),
        Message::CyclePaneNext => lemma_cycle_pane(s, 1),
        Message::CyclePanePrev => lemma_cycle_pane(s, -1),
        Message::SelectPane(id) => if s.has_active_tab() {
            lemma_tab_replaced(s, after, s.active_tab);
        },
        Message::Resized(id, width, height) => {
            let sized = AppState {
                config: s.config.sized(width, height),
                resize_save_generation: (s.resize_save_generation + 1) as u64,
                ..s
            };
            assert(same_panes(s, sized));
            lemma_relaid(sized);
        },
        _ => {
            assert(same_panes(s, after));
        },
    }
}

/// In every tab the focused pane stays one of the tab's own, as long as no pane
/// is selected that the active tab does not have.
pub proof fn law_focus_is_kept(s: AppState, message: Message, around: Surroundings)
    requires
        s.wf(),
        s.focus_ok(),
        s.can_take(message),
        message matches Message::SelectPane(id) ==> s.has_active_tab()
            ==> s.active().panes.contains_key(id),
    ensures
        s.step(message, around).state.focus_ok(),
{
    let after = s.step(message, around).state;
    match message {
        Message::KeyPressed(key, modifiers, text) => {
            match crate::keys::shortcut_of(key, modifiers) {
                Some(shortcut) => lemma_shortcut(s, shortcut, around),
                None => {},
            }
        },
        Message::TogglePopup => lemma_toggle_popup(s, around),
        Message::SplitPane(direction) => lemma_split_pane(s, direction),
        Message::ClosePane(id) => lemma_close_pane(s, id),
        Message::NewTab => lemma_shortcut(s, Shortcut::NewTab, around),
        Message::CloseTab(idx) => lemma_close_tab(s, idx as int),
        Message::SelectTab(idx) => lemma_select_tab(s, idx as int),
        Message::CycleTabNext => lemma_shortcut(s, Shortcut::NextTab, around),
        Message::CycleTabPrev => lemma_shortcut(s, Shortcut::PreviousTab, around),
        Message::CyclePaneNext => lemma_cycle_pane(s, 1),
        Message::CyclePanePrev => lemma_cycle_pane(s, -1),
        Message::SelectPane(id) => {
            assert forall|i: int| 0 <= i < after.tabs.len() implies (
            #[trigger] after.tabs[i]).focus_ok() by {
                assert(s.tabs[i].focus_ok());
            }
        },
        Message::Resized(id, width, height) => {
            let sized = AppState {
                config: s.config.sized(width, height),
                resize_save_generation: (s.resize_save_generation + 1) as u64,
                ..s
            };
            assert(same_panes(s, sized));
            lemma_relaid(sized);
        },
        _ => {},
    }
}

/// The window never gets smaller than five hundred by three hundred pixels.
pub proof fn law_window_stays_large_enough(s: AppState, message: Message, around: Surroundings)
    requires
        s.config.wf(),
    ensures
        s.step(message, around).state.config.wf(),
{
}

} // verus!
