//! What the messages about panes do.

use crate::action::ActionView;
use crate::message::Message;
use crate::pane::{PaneId, SplitDirection};
use crate::state::{AppState, Surroundings};
use crate::tab::TabState;
use crate::terminal::CommandView;
use vstd::prelude::*;

verus! {

/// Whether the pane `id` was opened in the active tab: it has the next name and the
/// focus, its terminal is the first thing asked for and starts with the size that the
/// pane then has, and all other panes, tabs and settings stay.
pub open spec fn opens_in_active_tab(s: AppState, step: crate::state::Step) -> bool {
    let id = s.next_pane_id;
    let a = s.active_tab;
    let after = step.state;
    &&& after.tabs.len() == s.tabs.len()
    &&& after.active_tab == a
    &&& after.next_pane_id == id + 1
    &&& after.tabs[a].number == s.tabs[a].number
    &&& after.tabs[a].active_pane == id
    &&& after.tabs[a].panes.dom() == s.tabs[a].panes.dom().insert(id)
    &&& forall|i: int| 0 <= i < s.tabs.len() && i != a ==> (#[trigger] after.tabs[i]) == s.tabs[i]
    &&& step.actions.len() > 0
    &&& step.actions[0] == ActionView::SpawnTerminal {
        pane: id,
        cols: after.tabs[a].panes[id].last_size.0,
        rows: after.tabs[a].panes[id].last_size.1,
    }
    &&& crate::laws::tabs::same_around_tabs(after, s)
}

proof fn lemma_split_opens(s: AppState, direction: SplitDirection)
    requires
        s.wf(),
        s.split_opens_pane(direction),
        s.next_pane_id < u64::MAX,
    ensures
        opens_in_active_tab(s, s.split_pane(direction)),
        s.split_pane(direction).state.tabs[s.active_tab].columns == s.active().split(
            direction,
            s.next_pane_id,
            s.active().split_size(direction, s.window_cells()),
        ).columns,
{
    let id = s.next_pane_id;
    let size = s.active().split_size(direction, s.window_cells());
    let tab = s.active().split(direction, id, size);
    let step = s.split_pane(direction);
    if s.active().panes.contains_key(id) {
        assert(s.holds(s.active_tab, id));
    }
    crate::laws::behaviour::law_split_pane_starts_in_place(
        s.active(),
        direction,
        s.window_cells(),
        id,
    );
    assert(step.state.tabs[s.active_tab].panes.dom() =~= s.active().panes.dom().insert(id));
    assert(step.state.tabs[s.active_tab].panes[id].last_size == tab.pane_size(
        s.window_cells(),
        id,
    ));
}

/// A horizontal split opens a column of its own for the new pane, to the right of all
/// others, as long as there are fewer than four.
pub proof fn law_horizontal_split_adds_a_column(s: AppState, around: Surroundings)
    requires
        s.wf(),
        s.tabs.len() > 0,
        s.tabs[s.active_tab].columns.len() < 4,
        s.next_pane_id < u64::MAX,
    ensures
        ({
            let step = s.step(Message::SplitPane(SplitDirection::Horizontal), around);
            &&& opens_in_active_tab(s, step)
            &&& step.state.tabs[s.active_tab].columns == s.tabs[s.active_tab].columns.push(
                seq![s.next_pane_id],
            )
        }),
{
    lemma_split_opens(s, SplitDirection::Horizontal);
}

/// A vertical split puts the new pane right below the focused one, in the same
/// column, as long as that has fewer than four panes.
pub proof fn law_vertical_split_adds_a_row(s: AppState, c: int, r: int, around: Surroundings)
    requires
        s.wf(),
        s.tabs.len() > 0,
        0 <= c < s.tabs[s.active_tab].columns.len(),
        0 <= r < s.tabs[s.active_tab].columns[c].len() < 4,
        s.tabs[s.active_tab].columns[c][r] == s.tabs[s.active_tab].active_pane,
        s.next_pane_id < u64::MAX,
    ensures
        ({
            let step = s.step(Message::SplitPane(SplitDirection::Vertical), around);
            let columns = s.tabs[s.active_tab].columns;
            &&& opens_in_active_tab(s, step)
            &&& step.state.tabs[s.active_tab].columns == columns.update(
                c,
                columns[c].insert(r + 1, s.next_pane_id),
            )
        }),
{
    let tab = s.active();
    assert(crate::grid::at(tab.columns, c, r, tab.active_pane));
    crate::grid::lemma_location(tab.columns, c, r, tab.active_pane);
    lemma_split_opens(s, SplitDirection::Vertical);
}

/// There is no fifth column and no fifth pane in a column, and without a focused pane
/// there is nothing to split vertically.
pub proof fn law_no_room_no_split(s: AppState, around: Surroundings)
    requires
        s.wf(),
    ensures
        s.tabs.len() == 0 || s.tabs[s.active_tab].columns.len() >= 4 ==> {
            let step = s.step(Message::SplitPane(SplitDirection::Horizontal), around);
            step.state == s && step.actions.len() == 0
        },
        s.tabs.len() == 0 || !s.tabs[s.active_tab].panes.contains_key(
            s.tabs[s.active_tab].active_pane,
        ) || (exists|c: int, r: int|
            0 <= c < s.tabs[s.active_tab].columns.len() && 0 <= r
                < s.tabs[s.active_tab].columns[c].len() && s.tabs[s.active_tab].columns[c].len()
                >= 4 && (#[trigger] s.tabs[s.active_tab].columns[c][r])
                == s.tabs[s.active_tab].active_pane) ==> {
            let step = s.step(Message::SplitPane(SplitDirection::Vertical), around);
            step.state == s && step.actions.len() == 0
        },
{
    if s.tabs.len() > 0 {
        let tab = s.tabs[s.active_tab];
        if exists|c: int, r: int|
            0 <= c < tab.columns.len() && 0 <= r < tab.columns[c].len() && tab.columns[c].len()
                >= 4 && (#[trigger] tab.columns[c][r]) == tab.active_pane {
            let (c, r) = choose|c: int, r: int|
                0 <= c < tab.columns.len() && 0 <= r < tab.columns[c].len()
                    && tab.columns[c].len() >= 4 && (#[trigger] tab.columns[c][r])
                    == tab.active_pane;
            assert(crate::grid::at(tab.columns, c, r, tab.active_pane));
            crate::grid::lemma_location(tab.columns, c, r, tab.active_pane);
        }
    }
}

/// Closing one of several panes of a tab takes it out of its column, and the column
/// too where it was alone in it. Its terminal is ended before anything else is asked
/// for. The tab's other panes, the other tabs and everything else stay.
pub proof fn law_closing_a_pane_keeps_the_others(
    s: AppState,
    i: int,
    c: int,
    r: int,
    around: Surroundings,
)
    requires
        s.wf(),
        0 <= i < s.tabs.len(),
        0 <= c < s.tabs[i].columns.len(),
        0 <= r < s.tabs[i].columns[c].len(),
        s.tabs[i].columns.len() > 1 || s.tabs[i].columns[c].len() > 1,
    ensures
        ({
            let columns = s.tabs[i].columns;
            let id = columns[c][r];
            let step = s.step(Message::ClosePane(id), around);
            let after = step.state;
            &&& after.tabs.len() == s.tabs.len()
            &&& after.active_tab == s.active_tab
            &&& after.next_pane_id == s.next_pane_id
            &&& crate::laws::tabs::same_around_tabs(after, s)
            &&& columns[c].len() == 1 ==> after.tabs[i].columns == columns.remove(c)
            &&& columns[c].len() > 1 ==> after.tabs[i].columns == columns.update(
                c,
                columns[c].remove(r),
            )
            &&& after.tabs[i].panes.dom() == s.tabs[i].panes.dom().remove(id)
            &&& after.tabs[i].number == s.tabs[i].number
            &&& forall|j: int|
                0 <= j < s.tabs.len() && j != i ==> crate::laws::tabs::same_tab(#[trigger] after.tabs[j], s.tabs[j])
                    && after.tabs[j].number == s.tabs[j].number
            &&& step.actions.len() > 0
            &&& step.actions[0] == ActionView::Terminal(id, CommandView::Shutdown)
        }),
{
    lemma_close_pane(s, i, c, r);
}

/// Closing a pane other than its tab's focused one leaves the focus where it is.
/// Closing the focused one moves it to the first pane of the first column.
pub proof fn law_focus_after_closing_a_pane(
    s: AppState,
    i: int,
    c: int,
    r: int,
    around: Surroundings,
)
    requires
        s.wf(),
        0 <= i < s.tabs.len(),
        0 <= c < s.tabs[i].columns.len(),
        0 <= r < s.tabs[i].columns[c].len(),
        s.tabs[i].columns.len() > 1 || s.tabs[i].columns[c].len() > 1,
    ensures
        ({
            let id = s.tabs[i].columns[c][r];
            let after = s.step(Message::ClosePane(id), around).state.tabs[i];
            let before = s.tabs[i];
            &&& before.active_pane != id && before.panes.contains_key(before.active_pane)
                ==> after.active_pane == before.active_pane
            &&& before.active_pane == id || !before.panes.contains_key(before.active_pane)
                ==> after.active_pane == after.columns[0][0]
        }),
{
    lemma_close_pane(s, i, c, r);
}

proof fn lemma_close_pane(s: AppState, i: int, c: int, r: int)
    requires
        s.wf(),
        0 <= i < s.tabs.len(),
        0 <= c < s.tabs[i].columns.len(),
        0 <= r < s.tabs[i].columns[c].len(),
        s.tabs[i].columns.len() > 1 || s.tabs[i].columns[c].len() > 1,
    ensures
        ({
            let id = s.tabs[i].columns[c][r];
            let left = s.tabs[i].without_pane(id);
            let step = s.close_pane(id);
            &&& step.state.tabs.len() == s.tabs.len()
            &&& step.state.active_tab == s.active_tab
            &&& step.state.next_pane_id == s.next_pane_id
            &&& crate::laws::tabs::same_around_tabs(step.state, s)
            &&& crate::laws::tabs::same_tab(step.state.tabs[i], left)
            &&& forall|j: int|
                0 <= j < s.tabs.len() && j != i ==> crate::laws::tabs::same_tab(
                    #[trigger] step.state.tabs[j],
                    s.tabs[j],
                )
            &&& forall|j: int|
                0 <= j < s.tabs.len() ==> (#[trigger] step.state.tabs[j]).number
                    == s.tabs[j].number
            &&& step.actions.len() > 0
            &&& step.actions[0] == ActionView::Terminal(id, CommandView::Shutdown)
            &&& crate::grid::location(s.tabs[i].columns, id) == (c, r)
            &&& left.panes.dom() == s.tabs[i].panes.dom().remove(id)
            &&& crate::grid::in_grid(left.columns, s.tabs[i].active_pane) <==> (
            s.tabs[i].panes.contains_key(s.tabs[i].active_pane) && s.tabs[i].active_pane != id)
        }),
{
    let tab = s.tabs[i];
    let id = tab.columns[c][r];
    assert(crate::grid::at(tab.columns, c, r, id));
    crate::grid::lemma_location(tab.columns, c, r, id);
    assert(tab.panes.contains_key(id));
    assert(s.holds(i, id));
    assert(s.has_pane(id));
    assert(s.holds(s.tab_of(id), id));
    crate::grid::lemma_single(tab.columns);
    crate::grid::lemma_without(tab.columns, id);
    let t = AppState { tabs: s.tabs.update(i, tab.without_pane(id)), ..s };
    crate::laws::tabs::lemma_relaid_same_tabs(t);
    assert(tab.without_pane(id).panes.dom() =~= tab.panes.dom().remove(id));
}

/// Closing the only pane of a tab closes the tab.
pub proof fn law_closing_the_only_pane_closes_the_tab(s: AppState, i: int, around: Surroundings)
    requires
        s.wf(),
        0 <= i < s.tabs.len(),
        s.tabs[i].columns.len() == 1,
        s.tabs[i].columns[0].len() == 1,
    ensures
        s.step(Message::ClosePane(s.tabs[i].columns[0][0]), around) == s.step(
            Message::CloseTab(i as usize),
            around,
        ),
{
    let tab = s.tabs[i];
    let id = tab.columns[0][0];
    assert(crate::grid::at(tab.columns, 0, 0, id));
    crate::grid::lemma_location(tab.columns, 0, 0, id);
    assert(tab.panes.contains_key(id));
    assert(s.holds(i, id));
    assert(s.has_pane(id));
    assert(s.holds(s.tab_of(id), id));
    crate::grid::lemma_single(tab.columns);
}

/// Closing a pane that does not exist does nothing.
pub proof fn law_no_such_pane(s: AppState, id: PaneId, around: Surroundings)
    requires
        forall|i: int|
            0 <= i < s.tabs.len() ==> !(#[trigger] s.tabs[i]).panes.contains_key(id),
    ensures
        s.step(Message::ClosePane(id), around).state == s,
        s.step(Message::ClosePane(id), around).actions.len() == 0,
{
    crate::laws::window::law_pane_is_in_a_tab(s, id);
}

/// A click on a pane gives it the focus of the active tab, and does nothing else.
pub proof fn law_chosen_pane_has_the_focus(s: AppState, id: PaneId, around: Surroundings)
    requires
        0 <= s.active_tab < s.tabs.len(),
    ensures
        ({
            let step = s.step(Message::SelectPane(id), around);
            &&& step.actions.len() == 0
            &&& step.state == (AppState { tabs: step.state.tabs, ..s })
            &&& step.state.tabs.len() == s.tabs.len()
            &&& step.state.tabs[s.active_tab] == (TabState {
                active_pane: id,
                ..s.tabs[s.active_tab]
            })
            &&& forall|i: int|
                0 <= i < s.tabs.len() && i != s.active_tab ==> (#[trigger] step.state.tabs[i])
                    == s.tabs[i]
        }),
{
}

/// Without an active tab there is no focus to give.
pub proof fn law_no_tab_no_focus(s: AppState, id: PaneId, around: Surroundings)
    requires
        !(0 <= s.active_tab < s.tabs.len()),
    ensures
        s.step(Message::SelectPane(id), around).state == s,
        s.step(Message::SelectPane(id), around).actions.len() == 0,
{
}

/// The next pane is the one below, then the first of the column to the right, and
/// after the last the first; the previous one is the other way round. Going there is
/// like a click on it.
pub proof fn law_next_pane_is_below(s: AppState, k: int, around: Surroundings)
    requires
        s.wf(),
        s.tabs.len() > 0,
        0 <= k < s.tabs[s.active_tab].columns.flatten().len(),
        s.tabs[s.active_tab].columns.flatten()[k] == s.tabs[s.active_tab].active_pane,
    ensures
        ({
            let ids = s.tabs[s.active_tab].columns.flatten();
            let n = ids.len() as int;
            let next = if k + 1 < n {
                ids[k + 1]
            } else {
                ids[0]
            };
            let previous = if k > 0 {
                ids[k - 1]
            } else {
                ids[n - 1]
            };
            &&& s.step(Message::CyclePaneNext, around) == s.step(Message::SelectPane(next), around)
            &&& s.step(Message::CyclePanePrev, around) == s.step(
                Message::SelectPane(previous),
                around,
            )
        }),
{
    let ids = s.tabs[s.active_tab].columns.flatten();
    let n = ids.len() as int;
    crate::grid::lemma_flatten_distinct(s.tabs[s.active_tab].columns);
    assert(ids.contains(ids[k]));
    assert(ids.index_of(ids[k]) == k);
    vstd::arithmetic::div_mod::lemma_mod_self_0(n);
    vstd::arithmetic::div_mod::lemma_mod_add_multiples_vanish(-1, n);
    vstd::arithmetic::div_mod::lemma_small_mod((n - 1) as nat, n as nat);
    if k + 1 < n {
        vstd::arithmetic::div_mod::lemma_small_mod((k + 1) as nat, n as nat);
    }
    if k > 0 {
        vstd::arithmetic::div_mod::lemma_small_mod((k - 1) as nat, n as nat);
    }
}

/// Where no tab is active, or its focused pane is not in its grid, there is nowhere
/// to go.
pub proof fn law_no_pane_to_go_to(s: AppState, around: Surroundings)
    requires
        !(0 <= s.active_tab < s.tabs.len()) || !s.tabs[s.active_tab].columns.flatten().contains(
            s.tabs[s.active_tab].active_pane,
        ),
    ensures
        s.step(Message::CyclePaneNext, around).state == s,
        s.step(Message::CyclePaneNext, around).actions.len() == 0,
        s.step(Message::CyclePanePrev, around).state == s,
        s.step(Message::CyclePanePrev, around).actions.len() == 0,
{
    if 0 <= s.active_tab < s.tabs.len() {
        assert(s.with_active(s.active()).tabs =~= s.tabs);
    }
}

} // verus!
