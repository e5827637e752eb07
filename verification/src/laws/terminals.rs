//! Terminals come and go with their panes.

use crate::action::ActionView;
use crate::keys::Shortcut;
use crate::message::Message;
use crate::pane::{PaneId, SplitDirection};
use crate::state::{AppState, Surroundings, MAX_TABS};
use crate::terminal::CommandView;
use vstd::prelude::*;

verus! {

/// Whether `action` starts the terminal of the pane `id`.
pub open spec fn starts(action: ActionView, id: PaneId) -> bool {
    action matches ActionView::SpawnTerminal { pane, .. } && pane == id
}

/// Whether `action` ends the terminal of the pane `id`.
pub open spec fn ends(action: ActionView, id: PaneId) -> bool {
    action == ActionView::Terminal(id, CommandView::Shutdown)
}

/// Whether one of the actions starts the terminal of the pane `id`.
pub open spec fn any_starts(actions: Seq<ActionView>, id: PaneId) -> bool {
    exists|k: int| 0 <= k < actions.len() && starts(#[trigger] actions[k], id)
}

/// Whether one of the actions ends the terminal of the pane `id`.
pub open spec fn any_ends(actions: Seq<ActionView>, id: PaneId) -> bool {
    exists|k: int| 0 <= k < actions.len() && ends(#[trigger] actions[k], id)
}

/// Whether `action` only gives a terminal its size.
pub open spec fn only_sizes(action: ActionView) -> bool {
    action matches ActionView::Terminal(_, command) && (command is ResizeGrid
        || command is ResizePty || command is Invalidate)
}

/// What is asked for by each of `ids` is asked for by all of them together, and
/// nothing else.
proof fn lemma_flat_map_all(
    ids: Seq<PaneId>,
    f: spec_fn(PaneId) -> Seq<ActionView>,
    p: spec_fn(ActionView) -> bool,
)
    requires
        forall|id: PaneId, k: int| 0 <= k < f(id).len() ==> p(#[trigger] f(id)[k]),
    ensures
        forall|k: int| 0 <= k < ids.flat_map(f).len() ==> p(#[trigger] ids.flat_map(f)[k]),
    decreases ids.len(),
{
    if ids.len() > 0 {
        let front = ids.drop_last();
        lemma_flat_map_all(front, f, p);
        front.lemma_flat_map_push(f, ids.last());
        assert(ids =~= front.push(ids.last()));
        assert forall|k: int| 0 <= k < ids.flat_map(f).len() implies p(
            #[trigger] ids.flat_map(f)[k],
        ) by {
            if k < front.flat_map(f).len() {
                assert(p(front.flat_map(f)[k]));
            } else {
                assert(p(f(ids.last())[k - front.flat_map(f).len()]));
            }
        }
    }
}

/// Laying out only gives terminals their sizes.
pub(crate) proof fn lemma_relaid_only_sizes(s: AppState)
    ensures
        forall|k: int|
            0 <= k < s.relaid().actions.len() ==> only_sizes(#[trigger] s.relaid().actions[k]),
{
    if s.has_active_tab() {
        let tab = s.active();
        let window = s.window_cells();
        let f = |id: PaneId| tab.pane_layout_actions(window, id);
        let p = |a: ActionView| only_sizes(a);
        lemma_flat_map_all(tab.columns.flatten(), f, p);
        assert forall|k: int| 0 <= k < s.relaid().actions.len() implies only_sizes(
            #[trigger] s.relaid().actions[k],
        ) by {
            assert(p(tab.columns.flatten().flat_map(f)[k]));
        }
    }
}

/// Laying out changes no tab's panes.
proof fn lemma_relaid_panes(s: AppState)
    ensures
        forall|id: PaneId| #[trigger] s.relaid().state.has_pane(id) <==> s.has_pane(id),
{
    let after = s.relaid().state;
    assert forall|i: int, id: PaneId| #[trigger] after.holds(i, id) <==> s.holds(i, id) by {
        if s.has_active_tab() && i == s.active_tab {
            assert(after.tabs[i] == s.active().laid_out(s.window_cells()));
        } else if 0 <= i < s.tabs.len() {
            assert(after.tabs[i] == s.tabs[i]);
        }
    }
    assert forall|id: PaneId| #[trigger] after.has_pane(id) <==> s.has_pane(id) by {
        if after.has_pane(id) {
            assert(s.holds(after.tab_of(id), id));
        }
        if s.has_pane(id) {
            assert(after.holds(s.tab_of(id), id));
        }
    }
}

/// Exactly the panes that are new have their terminals started, exactly those that
/// are gone have them ended, and the new ones have names that were not yet given.
pub open spec fn follows_panes(s: AppState, step: crate::state::Step) -> bool {
    &&& forall|id: PaneId| #[trigger]
        any_starts(step.actions, id) <==> !s.has_pane(id) && step.state.has_pane(id)
    &&& forall|id: PaneId| #[trigger]
        any_ends(step.actions, id) <==> s.has_pane(id) && !step.state.has_pane(id)
    &&& step.state.next_pane_id >= s.next_pane_id
    &&& forall|id: PaneId|
        !s.has_pane(id) && #[trigger] step.state.has_pane(id) ==> s.next_pane_id <= id
            < step.state.next_pane_id
}

/// A step follows the panes if it keeps them and starts and ends nothing.
proof fn lemma_quiet(s: AppState, step: crate::state::Step)
    requires
        step.state.next_pane_id >= s.next_pane_id,
        forall|id: PaneId| #[trigger] step.state.has_pane(id) <==> s.has_pane(id),
        forall|k: int, id: PaneId|
            0 <= k < step.actions.len() ==> !(#[trigger] starts(step.actions[k], id)),
        forall|k: int, id: PaneId|
            0 <= k < step.actions.len() ==> !(#[trigger] ends(step.actions[k], id)),
    ensures
        follows_panes(s, step),
{
    assert forall|id: PaneId| !(#[trigger] any_starts(step.actions, id)) by {}
    assert forall|id: PaneId| !(#[trigger] any_ends(step.actions, id)) by {}
}

/// A step that keeps the tabs follows the panes if it starts and ends nothing.
proof fn lemma_quiet_same_tabs(s: AppState, step: crate::state::Step)
    requires
        step.state.tabs == s.tabs,
        step.state.next_pane_id >= s.next_pane_id,
        forall|k: int, id: PaneId|
            0 <= k < step.actions.len() ==> !(#[trigger] starts(step.actions[k], id)),
        forall|k: int, id: PaneId|
            0 <= k < step.actions.len() ==> !(#[trigger] ends(step.actions[k], id)),
    ensures
        follows_panes(s, step),
{
    lemma_same_tabs(s, step.state);
    lemma_quiet(s, step);
}

proof fn lemma_same_tabs(s: AppState, t: AppState)
    requires
        t.tabs == s.tabs,
    ensures
        forall|id: PaneId| #[trigger] t.has_pane(id) <==> s.has_pane(id),
{
    assert forall|id: PaneId| #[trigger] t.has_pane(id) <==> s.has_pane(id) by {
        if t.has_pane(id) {
            assert(s.holds(t.tab_of(id), id));
        }
        if s.has_pane(id) {
            assert(t.holds(s.tab_of(id), id));
        }
    }
}

/// A step that is laying out follows the panes.
proof fn lemma_follows_relaid(s: AppState, t: AppState, step: crate::state::Step)
    requires
        t.tabs == s.tabs,
        t.next_pane_id >= s.next_pane_id,
        step.state == t.relaid().state,
        step.actions.len() >= t.relaid().actions.len(),
        forall|k: int|
            0 <= k < t.relaid().actions.len() ==> (#[trigger] step.actions[k])
                == t.relaid().actions[k],
        forall|k: int|
            t.relaid().actions.len() <= k < step.actions.len() ==> ((
            #[trigger] step.actions[k]) is OpenSurface || step.actions[k] is ScheduleSave),
    ensures
        follows_panes(s, step),
{
    lemma_same_tabs(s, t);
    lemma_relaid_panes(t);
    lemma_relaid_only_sizes(t);
    assert forall|k: int, id: PaneId| 0 <= k < step.actions.len() implies !(#[trigger] starts(
        step.actions[k],
        id,
    )) by {
        if k < t.relaid().actions.len() {
            assert(only_sizes(t.relaid().actions[k]));
        }
    }
    assert forall|k: int, id: PaneId| 0 <= k < step.actions.len() implies !(#[trigger] ends(
        step.actions[k],
        id,
    )) by {
        if k < t.relaid().actions.len() {
            assert(only_sizes(t.relaid().actions[k]));
        }
    }
    lemma_quiet(s, step);
}

/// A step that opens the pane `id` and starts its terminal follows the panes.
proof fn lemma_follows_opening(s: AppState, step: crate::state::Step, id: PaneId)
    requires
        !s.has_pane(id),
        s.next_pane_id <= id < step.state.next_pane_id,
        forall|x: PaneId| #[trigger] step.state.has_pane(x) <==> s.has_pane(x) || x == id,
        step.actions.len() >= 1,
        forall|x: PaneId| #[trigger] starts(step.actions[0], x) <==> x == id,
        forall|x: PaneId| !(#[trigger] ends(step.actions[0], x)),
        forall|k: int, x: PaneId|
            1 <= k < step.actions.len() ==> !(#[trigger] starts(step.actions[k], x)),
        forall|k: int, x: PaneId|
            1 <= k < step.actions.len() ==> !(#[trigger] ends(step.actions[k], x)),
    ensures
        follows_panes(s, step),
{
    assert forall|x: PaneId| #[trigger] any_starts(step.actions, x) <==> x == id by {
        if x == id {
            assert(starts(step.actions[0], x));
        }
    }
    assert forall|x: PaneId| !(#[trigger] any_ends(step.actions, x)) by {
        if any_ends(step.actions, x) {
            let k = choose|k: int| 0 <= k < step.actions.len() && ends(
                #[trigger] step.actions[k],
                x,
            );
            if k == 0 {
                assert(!ends(step.actions[0], x));
            }
        }
    }
}

proof fn lemma_opened_tab_follows(s: AppState, more: Seq<ActionView>)
    requires
        s.wf(),
        forall|k: int| 0 <= k < more.len() ==> (#[trigger] more[k]) is OpenSurface,
        s.next_pane_id < u64::MAX,
    ensures
        follows_panes(
            s,
            crate::state::Step {
                state: s.opened_tab().state,
                actions: s.opened_tab().actions + more,
            },
        ),
{
    let id = s.next_pane_id;
    let after = s.opened_tab().state;
    let n = s.tabs.len() as int;
    lemma_unused(s);
    assert forall|x: PaneId| #[trigger] after.has_pane(x) <==> s.has_pane(x) || x == id by {
        if after.has_pane(x) {
            let i = after.tab_of(x);
            assert(after.holds(i, x));
            if i < n {
                assert(after.tabs[i] == s.tabs[i]);
                assert(s.holds(i, x));
            }
        }
        if s.has_pane(x) {
            let i = s.tab_of(x);
            assert(s.holds(i, x));
            assert(after.tabs[i] == s.tabs[i]);
            assert(after.holds(i, x));
        }
        assert(after.holds(n, id));
    }
    let step = crate::state::Step { state: after, actions: s.opened_tab().actions + more };
    assert forall|k: int, x: PaneId| 1 <= k < step.actions.len() implies !(#[trigger] starts(
        step.actions[k],
        x,
    )) by {
        assert(step.actions[k] == more[k - 1]);
    }
    assert forall|k: int, x: PaneId| 1 <= k < step.actions.len() implies !(#[trigger] ends(
        step.actions[k],
        x,
    )) by {
        assert(step.actions[k] == more[k - 1]);
    }
    lemma_follows_opening(s, step, id);
}

/// The next name is not yet that of a pane.
proof fn lemma_unused(s: AppState)
    requires
        s.wf(),
    ensures
        !s.has_pane(s.next_pane_id),
{
    if s.has_pane(s.next_pane_id) {
        assert(s.holds(s.tab_of(s.next_pane_id), s.next_pane_id));
    }
}

proof fn lemma_toggle_popup_follows(s: AppState, around: Surroundings)
    requires
        s.wf(),
        s.shortcut_opens_pane(Shortcut::TogglePopup) ==> s.next_pane_id < u64::MAX,
    ensures
        follows_panes(s, s.toggle_popup(around)),
{
    let step = s.toggle_popup(around);
    match s.window_id {
        Some(_) => lemma_quiet_same_tabs(s, step),
        None => {
            let shown = AppState {
                window_id: Some(around.fresh_window),
                surface_opened_at: Some(around.now),
                ..s
            };
            if s.tabs.len() == 0 {
                assert(forall|i: int, x: PaneId| #[trigger] shown.holds(i, x) == s.holds(i, x));
                lemma_same_tabs(s, shown);
                let more = seq![step.actions.last()];
                lemma_opened_tab_follows(shown, more);
                assert(step.actions =~= shown.opened_tab().actions + more);
            } else {
                lemma_follows_relaid(s, shown, step);
            }
        },
    }
}

proof fn lemma_split_pane_follows(s: AppState, direction: SplitDirection)
    requires
        s.wf(),
        s.split_opens_pane(direction) ==> s.next_pane_id < u64::MAX,
    ensures
        follows_panes(s, s.split_pane(direction)),
{
    let step = s.split_pane(direction);
    if !s.has_active_tab() || !s.active().can_split(direction) {
        lemma_quiet_same_tabs(s, step);
    } else {
        let id = s.next_pane_id;
        let size = s.active().split_size(direction, s.window_cells());
        let tab = s.active().split(direction, id, size);
        let split = AppState { next_pane_id: (id + 1) as PaneId, ..s.with_active(tab) };
        lemma_unused(s);
        assert forall|x: PaneId| #[trigger] split.has_pane(x) <==> s.has_pane(x) || x == id by {
            if split.has_pane(x) && x != id {
                let i = split.tab_of(x);
                assert(split.holds(i, x));
                assert(s.holds(i, x));
            }
            if s.has_pane(x) {
                let i = s.tab_of(x);
                assert(s.holds(i, x));
                assert(split.holds(i, x));
            }
            assert(split.holds(s.active_tab, id));
        }
        lemma_relaid_panes(split);
        lemma_relaid_only_sizes(split);
        assert forall|k: int| 1 <= k < step.actions.len() implies only_sizes(
            #[trigger] step.actions[k],
        ) by {
            assert(step.actions[k] == split.relaid().actions[k - 1]);
        }
        assert forall|k: int, x: PaneId| 1 <= k < step.actions.len() implies !(#[trigger] starts(
            step.actions[k],
            x,
        )) by {
            assert(only_sizes(step.actions[k]));
        }
        assert forall|k: int, x: PaneId| 1 <= k < step.actions.len() implies !(#[trigger] ends(
            step.actions[k],
            x,
        )) by {
            assert(only_sizes(step.actions[k]));
        }
        lemma_follows_opening(s, step, id);
    }
}

/// A step that closes panes and ends their terminals, and then lays out, follows
/// the panes.
proof fn lemma_follows_closing(
    s: AppState,
    step: crate::state::Step,
    ids: Seq<PaneId>,
)
    requires
        step.state.next_pane_id >= s.next_pane_id,
        forall|x: PaneId| #[trigger] ids.contains(x) ==> s.has_pane(x),
        forall|x: PaneId| #[trigger] step.state.has_pane(x) <==> s.has_pane(x) && !ids.contains(x),
        step.actions.len() >= ids.len(),
        forall|k: int|
            0 <= k < ids.len() ==> (#[trigger] step.actions[k]) == ActionView::Terminal(
                ids[k],
                CommandView::Shutdown,
            ),
        forall|k: int|
            ids.len() <= k < step.actions.len() ==> only_sizes(#[trigger] step.actions[k])
                || step.actions[k] is DestroySurface,
    ensures
        follows_panes(s, step),
{
    assert forall|x: PaneId| !(#[trigger] any_starts(step.actions, x)) by {
        if any_starts(step.actions, x) {
            let k = choose|k: int| 0 <= k < step.actions.len() && starts(
                #[trigger] step.actions[k],
                x,
            );
            if k >= ids.len() {
                assert(only_sizes(step.actions[k]) || step.actions[k] is DestroySurface);
            }
        }
    }
    assert forall|x: PaneId| #[trigger] any_ends(step.actions, x) <==> ids.contains(x) by {
        if any_ends(step.actions, x) {
            let k = choose|k: int| 0 <= k < step.actions.len() && ends(
                #[trigger] step.actions[k],
                x,
            );
            if k >= ids.len() {
                assert(only_sizes(step.actions[k]) || step.actions[k] is DestroySurface);
            } else {
                assert(ids[k] == x);
            }
        }
        if ids.contains(x) {
            let k = ids.index_of(x);
            assert(ids[k] == x);
            assert(ends(step.actions[k], x));
        }
    }
}

proof fn lemma_close_tab_follows(s: AppState, idx: int)
    requires
        s.wf(),
    ensures
        follows_panes(s, s.close_tab(idx)),
{
    let step = s.close_tab(idx);
    if idx < 0 || idx >= s.tabs.len() {
        lemma_quiet_same_tabs(s, step);
    } else {
        let ids = s.tabs[idx].columns.flatten();
        crate::grid::lemma_flatten_members(s.tabs[idx].columns);
        assert forall|x: PaneId| #[trigger] ids.contains(x) <==> s.holds(idx, x) by {
            assert(s.tabs[idx].panes.contains_key(x) <==> crate::grid::in_grid(
                s.tabs[idx].columns,
                x,
            ));
        }
        if s.tabs.len() <= 1 {
            assert forall|x: PaneId| #[trigger] step.state.has_pane(x) <==> s.has_pane(x)
                && !ids.contains(x) by {
                if step.state.has_pane(x) {
                    assert(step.state.holds(step.state.tab_of(x), x));
                }
                if s.has_pane(x) {
                    assert(s.holds(s.tab_of(x), x));
                }
            }
        } else {
            let left = AppState {
                tabs: crate::state::renumbered(s.tabs.remove(idx)),
                active_tab: crate::state::focus_after_close(s.active_tab, idx, s.tabs.len() - 1),
                ..s
            };
            assert forall|x: PaneId| #[trigger] left.has_pane(x) <==> s.has_pane(x)
                && !ids.contains(x) by {
                if left.has_pane(x) {
                    let j = left.tab_of(x);
                    assert(left.holds(j, x));
                    let back = if j < idx {
                        j
                    } else {
                        j + 1
                    };
                    assert(s.holds(back, x));
                }
                if s.has_pane(x) && !ids.contains(x) {
                    let i = s.tab_of(x);
                    assert(s.holds(i, x));
                    let j = if i < idx {
                        i
                    } else {
                        i - 1
                    };
                    assert(left.holds(j, x));
                }
            }
            lemma_relaid_panes(left);
            lemma_relaid_only_sizes(left);
            assert forall|k: int| ids.len() <= k < step.actions.len() implies only_sizes(
                #[trigger] step.actions[k],
            ) by {
                assert(step.actions[k] == left.relaid().actions[k - ids.len()]);
            }
        }
        lemma_follows_closing(s, step, ids);
    }
}

proof fn lemma_close_pane_follows(s: AppState, id: PaneId)
    requires
        s.wf(),
    ensures
        follows_panes(s, s.close_pane(id)),
{
    let step = s.close_pane(id);
    if !s.has_pane(id) {
        lemma_quiet_same_tabs(s, step);
    } else {
        let i = s.tab_of(id);
        assert(s.holds(i, id));
        if s.tabs[i].columns.flatten().len() <= 1 {
            lemma_close_tab_follows(s, i);
        } else {
            let left = AppState { tabs: s.tabs.update(i, s.tabs[i].without_pane(id)), ..s };
            let ids = seq![id];
            assert forall|x: PaneId| #[trigger] ids.contains(x) <==> x == id by {
                assert(ids[0] == id);
            }
            assert forall|x: PaneId| #[trigger] left.has_pane(x) <==> s.has_pane(x)
                && !ids.contains(x) by {
                if left.has_pane(x) {
                    let j = left.tab_of(x);
                    assert(left.holds(j, x));
                    assert(s.holds(j, x));
                }
                if s.has_pane(x) && x != id {
                    let j = s.tab_of(x);
                    assert(s.holds(j, x));
                    assert(left.holds(j, x));
                }
            }
            lemma_relaid_panes(left);
            lemma_relaid_only_sizes(left);
            assert forall|k: int| ids.len() <= k < step.actions.len() implies only_sizes(
                #[trigger] step.actions[k],
            ) by {
                assert(step.actions[k] == left.relaid().actions[k - 1]);
            }
            lemma_follows_closing(s, step, ids);
        }
    }
}

/// A step that only moves the focus within the active tab follows the panes.
proof fn lemma_refocus_follows(s: AppState, id: PaneId)
    requires
        s.has_active_tab(),
    ensures
        follows_panes(s, s.select_pane(id)),
{
    let after = s.select_pane(id).state;
    assert forall|i: int, x: PaneId| #[trigger] after.holds(i, x) <==> s.holds(i, x) by {}
    assert forall|x: PaneId| #[trigger] after.has_pane(x) <==> s.has_pane(x) by {
        if after.has_pane(x) {
            assert(s.holds(after.tab_of(x), x));
        }
        if s.has_pane(x) {
            assert(after.holds(s.tab_of(x), x));
        }
    }
    lemma_quiet(s, s.select_pane(id));
}

proof fn lemma_cycle_pane_follows(s: AppState, step: int)
    ensures
        follows_panes(s, s.cycle_pane(step)),
{
    if s.has_active_tab() {
        lemma_refocus_follows(s, s.active().neighbour(step));
    } else {
        lemma_quiet_same_tabs(s, s.cycle_pane(step));
    }
}

proof fn lemma_select_tab_follows(s: AppState, idx: int)
    ensures
        follows_panes(s, s.select_tab(idx)),
{
    if 0 <= idx < s.tabs.len() {
        lemma_follows_relaid(s, AppState { active_tab: idx, ..s }, s.select_tab(idx));
    } else {
        lemma_quiet_same_tabs(s, s.select_tab(idx));
    }
}

proof fn lemma_shortcut_follows(s: AppState, shortcut: Shortcut, around: Surroundings)
    requires
        s.wf(),
        s.shortcut_opens_pane(shortcut) ==> s.next_pane_id < u64::MAX,
    ensures
        follows_panes(s, s.shortcut(shortcut, around)),
{
    let step = s.shortcut(shortcut, around);
    match shortcut {
        Shortcut::TogglePopup => lemma_toggle_popup_follows(s, around),
        Shortcut::SplitHorizontal => lemma_split_pane_follows(s, SplitDirection::Horizontal),
        Shortcut::SplitVertical => lemma_split_pane_follows(s, SplitDirection::Vertical),
        Shortcut::ClosePane => if s.has_active_tab() {
            lemma_close_pane_follows(s, s.active().active_pane);
        } else {
            lemma_quiet_same_tabs(s, step);
        },
        Shortcut::NextPane => lemma_cycle_pane_follows(s, 1),
        Shortcut::PreviousPane => lemma_cycle_pane_follows(s, -1),
        Shortcut::NewTab => if s.tabs.len() < MAX_TABS {
            lemma_opened_tab_follows(s, seq![]);
            assert(step.actions =~= s.opened_tab().actions + Seq::<ActionView>::empty());
        } else {
            lemma_quiet_same_tabs(s, step);
        },
        Shortcut::CloseTab => lemma_close_tab_follows(s, s.active_tab),
        Shortcut::NextTab => if s.tabs.len() > 0 {
            lemma_select_tab_follows(s, (s.active_tab + 1) % (s.tabs.len() as int));
        } else {
            lemma_quiet_same_tabs(s, step);
        },
        Shortcut::PreviousTab => if s.tabs.len() > 0 {
            lemma_select_tab_follows(s, (s.active_tab - 1) % (s.tabs.len() as int));
        } else {
            lemma_quiet_same_tabs(s, step);
        },
        Shortcut::TogglePin => lemma_quiet_same_tabs(s, step),
        Shortcut::Copy => lemma_quiet_same_tabs(s, step),
        Shortcut::Paste => lemma_quiet_same_tabs(s, step),
    }
}

/// No terminal is forgotten and none is ended too early: a message starts the
/// terminals of exactly those panes that it opens, and ends those of exactly the
/// panes that it closes. What it opens has a name that no pane had before.
#[verifier::spinoff_prover]
#[verifier::rlimit(40)]
pub proof fn law_terminals_follow_panes(s: AppState, message: Message, around: Surroundings)
    requires
        s.wf(),
        s.can_take(message),
    ensures
        follows_panes(s, s.step(message, around)),
{
    let step = s.step(message, around);
    match message {
        Message::KeyPressed(key, modifiers, text) => {
            match crate::keys::shortcut_of(key, modifiers) {
                Some(shortcut) => lemma_shortcut_follows(s, shortcut, around),
                None => lemma_quiet_same_tabs(s, step),
            }
        },
        Message::TogglePopup => lemma_toggle_popup_follows(s, around),
        Message::SplitPane(direction) => lemma_split_pane_follows(s, direction),
        Message::ClosePane(id) => lemma_close_pane_follows(s, id),
        Message::NewTab => lemma_shortcut_follows(s, Shortcut::NewTab, around),
        Message::CloseTab(idx) => lemma_close_tab_follows(s, idx as int),
        Message::SelectTab(idx) => lemma_select_tab_follows(s, idx as int),
        Message::CycleTabNext => lemma_shortcut_follows(s, Shortcut::NextTab, around),
        Message::CycleTabPrev => lemma_shortcut_follows(s, Shortcut::PreviousTab, around),
        Message::CyclePaneNext => lemma_cycle_pane_follows(s, 1),
        Message::CyclePanePrev => lemma_cycle_pane_follows(s, -1),
        Message::SelectPane(id) => if s.has_active_tab() {
            lemma_refocus_follows(s, id);
        } else {
            lemma_quiet_same_tabs(s, step);
        },
        Message::Resized(id, width, height) => {
            if s.window_id != Some(id) || s.just_opened(around.now, crate::state::RESIZE_GRACE) {
                lemma_quiet_same_tabs(s, step);
            } else {
                let sized = AppState {
                    config: s.config.sized(width, height),
                    resize_save_generation: (s.resize_save_generation + 1) as u64,
                    ..s
                };
                lemma_follows_relaid(s, sized, step);
            }
        },
        _ => lemma_quiet_same_tabs(s, step),
    }
}

} // verus!
