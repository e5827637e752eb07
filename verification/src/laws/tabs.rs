//! What the messages about tabs do.

use crate::action::ActionView;
use crate::message::Message;
use crate::pane::PaneId;
use crate::state::{AppState, Surroundings};
use crate::tab::TabState;
use crate::terminal::CommandView;
use vstd::prelude::*;

verus! {

/// Whether two tabs have the same grid, the same panes and the same focus.
pub open spec fn same_tab(a: TabState, b: TabState) -> bool {
    &&& a.columns == b.columns
    &&& a.active_pane == b.active_pane
    &&& a.panes.dom() == b.panes.dom()
}

/// Whether everything but the tabs, the active one among them, and the names of panes
/// is the same.
pub open spec fn same_around_tabs(a: AppState, b: AppState) -> bool {
    &&& a.window_id == b.window_id
    &&& a.showing_preferences == b.showing_preferences
    &&& a.config == b.config
    &&& a.pinned == b.pinned
    &&& a.surface_opened_at == b.surface_opened_at
    &&& a.resize_save_generation == b.resize_save_generation
}

/// Laying out keeps every tab's grid, panes, focus and number.
pub(crate) proof fn lemma_relaid_same_tabs(t: AppState)
    ensures
        t.relaid().state.tabs.len() == t.tabs.len(),
        t.relaid().state.active_tab == t.active_tab,
        t.relaid().state.next_pane_id == t.next_pane_id,
        same_around_tabs(t.relaid().state, t),
        forall|i: int|
            0 <= i < t.tabs.len() ==> same_tab(#[trigger] t.relaid().state.tabs[i], t.tabs[i])
                && t.relaid().state.tabs[i].number == t.tabs[i].number,
{
    assert forall|i: int| 0 <= i < t.tabs.len() implies same_tab(
        #[trigger] t.relaid().state.tabs[i],
        t.tabs[i],
    ) && t.relaid().state.tabs[i].number == t.tabs[i].number by {
        assert(t.relaid().state.tabs[i].panes.dom() =~= t.tabs[i].panes.dom());
    }
}

/// A new tab comes after all others and is the active one. It has one pane with a
/// name of its own, which has the focus and starts as large as the window. The other
/// tabs stay as they are.
pub proof fn law_new_tab_comes_last(s: AppState, around: Surroundings)
    requires
        s.wf(),
        s.tabs.len() < 15,
        s.next_pane_id < u64::MAX,
    ensures
        ({
            let step = s.step(Message::NewTab, around);
            let after = step.state;
            let id = s.next_pane_id;
            let n = s.tabs.len() as int;
            let size = crate::layout::window_cells(s.config.window_width, s.config.window_height);
            &&& after.tabs.len() == n + 1
            &&& after.active_tab == n
            &&& after.next_pane_id == id + 1
            &&& forall|i: int| 0 <= i < n ==> (#[trigger] after.tabs[i]) == s.tabs[i]
            &&& after.tabs[n].number == n + 1
            &&& after.tabs[n].columns == seq![seq![id]]
            &&& after.tabs[n].active_pane == id
            &&& after.tabs[n].panes.dom() == set![id]
            &&& after.tabs[n].panes[id].last_size == size
            &&& step.actions == seq![
                ActionView::SpawnTerminal { pane: id, cols: size.0, rows: size.1 },
            ]
            &&& same_around_tabs(after, s)
        }),
{
    let n = s.tabs.len() as int;
    assert(s.step(Message::NewTab, around).state.tabs[n].panes.dom() =~= set![s.next_pane_id]);
}

/// The first tab that the drop-down opens is like any new one.
pub proof fn law_first_tab_is_new(s: AppState, around: Surroundings)
    requires
        s.wf(),
        s.window_id is None,
        s.tabs.len() == 0,
        s.next_pane_id < u64::MAX,
    ensures
        s.step(Message::TogglePopup, around).state.tabs == s.step(Message::NewTab, around).state.tabs,
        s.step(Message::TogglePopup, around).state.next_pane_id == s.step(
            Message::NewTab,
            around,
        ).state.next_pane_id,
        s.step(Message::TogglePopup, around).actions.drop_last() == s.step(
            Message::NewTab,
            around,
        ).actions,
{
    assert(s.step(Message::TogglePopup, around).actions.drop_last() =~= s.step(
        Message::NewTab,
        around,
    ).actions);
}

/// There is no sixteenth tab.
pub proof fn law_no_tab_too_many(s: AppState, around: Surroundings)
    requires
        s.tabs.len() >= 15,
    ensures
        s.step(Message::NewTab, around).state == s,
        s.step(Message::NewTab, around).actions.len() == 0,
{
}

/// Closing one of several tabs leaves the others in their order, numbered anew, each
/// with its grid, its panes and its focus.
pub proof fn law_closing_a_tab_keeps_the_others(s: AppState, idx: usize, around: Surroundings)
    requires
        s.wf(),
        idx < s.tabs.len(),
        s.tabs.len() > 1,
    ensures
        ({
            let after = s.step(Message::CloseTab(idx), around).state;
            &&& after.tabs.len() == s.tabs.len() - 1
            &&& forall|j: int|
                0 <= j < after.tabs.len() ==> (#[trigger] after.tabs[j]).number == j + 1
            &&& forall|j: int|
                0 <= j < idx ==> same_tab(#[trigger] after.tabs[j], s.tabs[j])
            &&& forall|j: int|
                idx <= j < after.tabs.len() ==> same_tab(#[trigger] after.tabs[j], s.tabs[j + 1])
            &&& after.next_pane_id == s.next_pane_id
            &&& same_around_tabs(after, s)
        }),
{
    let t = AppState {
        tabs: crate::state::renumbered(s.tabs.remove(idx as int)),
        active_tab: crate::state::focus_after_close(s.active_tab, idx as int, s.tabs.len() - 1),
        ..s
    };
    lemma_relaid_same_tabs(t);
}

/// Closing a tab other than the active one leaves the same tab active. Closing the
/// active one makes the tab active that came right after it, or the one before it
/// where none came after.
pub proof fn law_focus_after_closing_a_tab(s: AppState, idx: usize, around: Surroundings)
    requires
        s.wf(),
        idx < s.tabs.len(),
        s.tabs.len() > 1,
    ensures
        ({
            let after = s.step(Message::CloseTab(idx), around).state;
            let next = if s.active_tab != idx {
                s.active_tab
            } else if idx + 1 < s.tabs.len() {
                idx + 1
            } else {
                idx - 1
            };
            &&& 0 <= after.active_tab < after.tabs.len()
            &&& same_tab(after.tabs[after.active_tab], s.tabs[next])
            &&& after.active_tab == (if next < idx {
                next
            } else {
                next - 1
            })
        }),
{
    law_closing_a_tab_keeps_the_others(s, idx, around);
    lemma_relaid_same_tabs(
        AppState {
            tabs: crate::state::renumbered(s.tabs.remove(idx as int)),
            active_tab: crate::state::focus_after_close(
                s.active_tab,
                idx as int,
                s.tabs.len() - 1,
            ),
            ..s
        },
    );
}

/// With the only tab the drop-down goes too.
pub proof fn law_closing_the_only_tab_hides(s: AppState, around: Surroundings)
    requires
        s.wf(),
        s.tabs.len() == 1,
    ensures
        ({
            let step = s.step(Message::CloseTab(0), around);
            &&& step.state.tabs.len() == 0
            &&& step.state.active_tab == 0
            &&& step.state.window_id is None
            &&& step.state == (AppState { tabs: step.state.tabs, window_id: None, ..s })
            &&& s.window_id matches Some(window) ==> step.actions.len() > 0 && step.actions.last()
                == ActionView::DestroySurface(window)
            &&& forall|k: int|
                0 <= k < step.actions.len() - 1 ==> ((#[trigger] step.actions[k]) matches
                    ActionView::Terminal(_, CommandView::Shutdown))
        }),
{
}

/// Closing or choosing a tab that does not exist does nothing.
pub proof fn law_no_such_tab(s: AppState, idx: usize, around: Surroundings)
    requires
        idx >= s.tabs.len(),
    ensures
        s.step(Message::CloseTab(idx), around).state == s,
        s.step(Message::CloseTab(idx), around).actions.len() == 0,
        s.step(Message::SelectTab(idx), around).state == s,
        s.step(Message::SelectTab(idx), around).actions.len() == 0,
{
}

/// Choosing a tab makes it the active one, and changes no tab.
pub proof fn law_chosen_tab_is_active(s: AppState, idx: usize, around: Surroundings)
    requires
        idx < s.tabs.len(),
    ensures
        ({
            let after = s.step(Message::SelectTab(idx), around).state;
            &&& after.active_tab == idx
            &&& after.tabs.len() == s.tabs.len()
            &&& forall|i: int|
                0 <= i < s.tabs.len() ==> same_tab(#[trigger] after.tabs[i], s.tabs[i])
                    && after.tabs[i].number == s.tabs[i].number
            &&& after.next_pane_id == s.next_pane_id
            &&& same_around_tabs(after, s)
        }),
{
    lemma_relaid_same_tabs(AppState { active_tab: idx as int, ..s });
}

/// The next tab is the one to the right, and after the last the first; the previous
/// one is the one to the left, and before the first the last. Going there is choosing
/// it.
pub proof fn law_next_tab_is_to_the_right(s: AppState, around: Surroundings)
    requires
        s.wf(),
        s.tabs.len() > 0,
    ensures
        s.step(Message::CycleTabNext, around) == s.step(
            Message::SelectTab(
                if s.active_tab + 1 < s.tabs.len() {
                    (s.active_tab + 1) as usize
                } else {
                    0
                },
            ),
            around,
        ),
        s.step(Message::CycleTabPrev, around) == s.step(
            Message::SelectTab(
                if s.active_tab > 0 {
                    (s.active_tab - 1) as usize
                } else {
                    (s.tabs.len() - 1) as usize
                },
            ),
            around,
        ),
{
    let n = s.tabs.len() as int;
    vstd::arithmetic::div_mod::lemma_mod_self_0(n);
    vstd::arithmetic::div_mod::lemma_mod_add_multiples_vanish(-1, n);
    vstd::arithmetic::div_mod::lemma_small_mod((n - 1) as nat, n as nat);
    if s.active_tab + 1 < n {
        vstd::arithmetic::div_mod::lemma_small_mod((s.active_tab + 1) as nat, n as nat);
    }
    if s.active_tab > 0 {
        vstd::arithmetic::div_mod::lemma_small_mod((s.active_tab - 1) as nat, n as nat);
    }
}

/// Without tabs there is none to go to.
pub proof fn law_no_tab_to_go_to(s: AppState, around: Surroundings)
    requires
        s.tabs.len() == 0,
    ensures
        s.step(Message::CycleTabNext, around).state == s,
        s.step(Message::CycleTabNext, around).actions.len() == 0,
        s.step(Message::CycleTabPrev, around).state == s,
        s.step(Message::CycleTabPrev, around).actions.len() == 0,
{
}

} // verus!
