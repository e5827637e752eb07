//! Panes share the window, and their terminals know it.

use crate::action::ActionView;
use crate::message::Message;
use crate::pane::{PaneId, SplitDirection};
use crate::state::{AppState, Surroundings, RESIZE_GRACE};
use crate::terminal::{CommandView, TermDimensions, WindowSize};
use vstd::prelude::*;

verus! {

/// What tells a terminal its size: the emulator's grid, the pseudo-terminal, which is
/// also told that a cell is nine by eighteen pixels, and the drawing.
pub open spec fn told_size(id: PaneId, cols: u16, rows: u16) -> Seq<ActionView> {
    seq![
        ActionView::Terminal(id, CommandView::ResizeGrid(TermDimensions { cols, rows })),
        ActionView::Terminal(
            id,
            CommandView::ResizePty(
                WindowSize { num_lines: rows, num_cols: cols, cell_width: 9, cell_height: 18 },
            ),
        ),
        ActionView::Terminal(id, CommandView::Invalidate),
    ]
}

/// Whether an action is for the pane's terminal and tells it a size, or to be drawn
/// anew.
pub open spec fn tells(action: ActionView, id: PaneId) -> bool {
    action matches ActionView::Terminal(to, command) && to == id && (command is ResizeGrid
        || command is ResizePty || command is Invalidate)
}

/// What the actions tell the pane's terminal of its size, in order.
pub open spec fn told(actions: Seq<ActionView>, id: PaneId) -> Seq<ActionView> {
    actions.filter(|action: ActionView| tells(action, id))
}

/// What a terminal has to be told when its size goes from one to another.
pub open spec fn news(id: PaneId, from: (u16, u16), to: (u16, u16)) -> Seq<ActionView> {
    if from == to {
        seq![]
    } else {
        told_size(id, to.0, to.1)
    }
}

/// Whether the columns of the active tab have equal shares of the window's width, and
/// the panes of each column equal shares of its height.
pub open spec fn is_laid_out(s: AppState) -> bool {
    0 <= s.active_tab < s.tabs.len() ==> {
        let tab = s.tabs[s.active_tab];
        let window = crate::layout::window_cells(s.config.window_width, s.config.window_height);
        forall|c: int, r: int|
            0 <= c < tab.columns.len() && 0 <= r < tab.columns[c].len() ==> tab.panes[
                #[trigger] tab.columns[c][r]].last_size == (
                crate::layout::share(window.0, tab.columns.len() as int),
                crate::layout::share(window.1, tab.columns[c].len() as int),
            )
    }
}

/// Equal shares leave no cell over for one more in each, and are never empty; and
/// cells are whole, nine by eighteen pixels, below a tab bar of thirty-two pixels.
pub proof fn law_cells_fit_the_window(width: u32, height: u32)
    ensures
        ({
            let (cols, rows) = crate::layout::window_cells(width, height);
            &&& cols >= 1
            &&& rows >= 1
            &&& cols > 1 ==> 9 * cols <= width
            &&& cols < 0xffff ==> width < 9 * (cols + 1)
            &&& rows > 1 ==> 32 + 18 * rows <= height
            &&& rows < 0xffff ==> height < 32 + 18 * (rows + 1)
        }),
{
}

/// Where there are more parts than cells, each part has one.
pub proof fn law_no_share_is_empty(total: u16, parts: int)
    requires
        parts > total,
    ensures
        crate::layout::share(total, parts) == 1,
{
    vstd::arithmetic::div_mod::lemma_small_div_converse(total as int, parts);
    vstd::arithmetic::div_mod::lemma_basic_div(total as int, parts);
}

/// Numbers of cells are kept between one and the largest that sixteen bits hold.
pub proof fn law_cells_are_kept_in_bounds(n: int)
    ensures
        n < 1 ==> crate::layout::to_cells(n) == 1,
        1 <= n <= 0xffff ==> crate::layout::to_cells(n) == n,
        n > 0xffff ==> crate::layout::to_cells(n) == 0xffff,
{
}

/// Whether the actions from the position `from` up to `to` tell terminals their sizes
/// and nothing else.
pub open spec fn only_tell(actions: Seq<ActionView>, from: int, to: int) -> bool {
    forall|k: int|
        from <= k < to ==> ((#[trigger] actions[k]) matches ActionView::Terminal(_, command) && (
        command is ResizeGrid || command is ResizePty || command is Invalidate))
}

proof fn lemma_between_tells(t: AppState, before: Seq<ActionView>, after: Seq<ActionView>)
    ensures
        ({
            let actions = t.relaid_between(before, after).actions;
            &&& actions.len() >= before.len() + after.len()
            &&& actions.take(before.len() as int) == before
            &&& actions.skip(actions.len() - after.len()) == after
            &&& only_tell(actions, before.len() as int, actions.len() - after.len())
        }),
{
    crate::laws::terminals::lemma_relaid_only_sizes(t);
    let actions = t.relaid_between(before, after).actions;
    let laid_out = t.relaid().actions;
    assert(actions.take(before.len() as int) =~= before);
    assert(actions.skip(actions.len() - after.len()) =~= after);
    assert forall|k: int| before.len() <= k < actions.len() - after.len() implies ((
    #[trigger] actions[k]) matches ActionView::Terminal(_, command) && (command is ResizeGrid
        || command is ResizePty || command is Invalidate)) by {
        assert(actions[k] == laid_out[k - before.len()]);
        assert(crate::laws::terminals::only_sizes(laid_out[k - before.len()]));
    }
}

/// Closing a tab first ends each of its terminals once, column by column. What is then
/// asked for only tells sizes, or, with the last tab, hides the drop-down.
pub proof fn law_closing_a_tab_ends_each_terminal_once(
    s: AppState,
    idx: usize,
    around: Surroundings,
)
    requires
        idx < s.tabs.len(),
    ensures
        ({
            let ids = s.tabs[idx as int].columns.flatten();
            let actions = s.step(Message::CloseTab(idx), around).actions;
            &&& actions.len() >= ids.len()
            &&& forall|k: int|
                0 <= k < ids.len() ==> (#[trigger] actions[k]) == ActionView::Terminal(
                    ids[k],
                    CommandView::Shutdown,
                )
            &&& s.tabs.len() > 1 ==> only_tell(
                actions,
                ids.len() as int,
                actions.len() as int,
            )
            &&& s.tabs.len() == 1 && s.window_id is None ==> actions.len() == ids.len()
            &&& s.tabs.len() == 1 && s.window_id is Some ==> actions.len() == ids.len() + 1
        }),
{
    let ended = s.tabs[idx as int].shutdown_actions();
    let actions = s.step(Message::CloseTab(idx), around).actions;
    if s.tabs.len() > 1 {
        lemma_between_tells(
            AppState {
                tabs: crate::state::renumbered(s.tabs.remove(idx as int)),
                active_tab: crate::state::focus_after_close(
                    s.active_tab,
                    idx as int,
                    s.tabs.len() - 1,
                ),
                ..s
            },
            ended,
            seq![],
        );
        assert forall|k: int| 0 <= k < ended.len() implies (#[trigger] actions[k]) == ended[k] by {
            assert(actions.take(ended.len() as int)[k] == actions[k]);
        }
    } else {
        assert forall|k: int| 0 <= k < ended.len() implies (#[trigger] actions[k]) == ended[k] by {
        }
    }
}

/// Closing one of several panes first ends its terminal, and then only tells sizes.
pub proof fn law_closing_a_pane_ends_its_terminal_once(
    s: AppState,
    id: PaneId,
    around: Surroundings,
)
    requires
        s.has_pane(id),
        s.tabs[s.tab_of(id)].columns.flatten().len() > 1,
    ensures
        ({
            let actions = s.step(Message::ClosePane(id), around).actions;
            &&& actions.len() > 0
            &&& actions[0] == ActionView::Terminal(id, CommandView::Shutdown)
            &&& only_tell(actions, 1, actions.len() as int)
        }),
{
    let i = s.tab_of(id);
    let t = AppState { tabs: s.tabs.update(i, s.tabs[i].without_pane(id)), ..s };
    let before = seq![ActionView::Terminal(id, CommandView::Shutdown)];
    lemma_between_tells(t, before, seq![]);
    assert(t.relaid_between(before, seq![]).actions.take(1)[0] == before[0]);
}

/// A split first starts the new pane's terminal, and then only tells sizes.
pub proof fn law_split_starts_one_terminal(
    s: AppState,
    direction: SplitDirection,
    around: Surroundings,
)
    requires
        s.step(Message::SplitPane(direction), around).actions.len() > 0,
    ensures
        ({
            let actions = s.step(Message::SplitPane(direction), around).actions;
            &&& actions[0] matches ActionView::SpawnTerminal { pane, .. } && pane
                == s.next_pane_id
            &&& only_tell(actions, 1, actions.len() as int)
        }),
{
    let id = s.next_pane_id;
    let size = s.active().split_size(direction, s.window_cells());
    let t = AppState {
        next_pane_id: (id + 1) as PaneId,
        ..s.with_active(s.active().split(direction, id, size))
    };
    let before = seq![ActionView::SpawnTerminal { pane: id, cols: size.0, rows: size.1 }];
    lemma_between_tells(t, before, seq![]);
    assert(t.relaid_between(before, seq![]).actions.take(1)[0] == before[0]);
}

/// Showing, resizing and choosing ask for nothing else than sizes, before the surface
/// or the save that ends the first two.
pub proof fn law_layout_only_tells_sizes(
    s: AppState,
    idx: usize,
    window: u64,
    width: u32,
    height: u32,
    around: Surroundings,
)
    ensures
        s.window_id is None && s.tabs.len() > 0 ==> ({
            let actions = s.step(Message::TogglePopup, around).actions;
            only_tell(actions, 0, actions.len() - 1)
        }),
        ({
            let actions = s.step(Message::Resized(window, width, height), around).actions;
            only_tell(actions, 0, actions.len() - 1)
        }),
        ({
            let actions = s.step(Message::SelectTab(idx), around).actions;
            only_tell(actions, 0, actions.len() as int)
        }),
{
    if s.window_id is None && s.tabs.len() > 0 {
        lemma_between_tells(
            AppState {
                window_id: Some(around.fresh_window),
                surface_opened_at: Some(around.now),
                ..s
            },
            seq![],
            seq![
                ActionView::OpenSurface {
                    window: around.fresh_window,
                    width: s.config.window_width,
                    height: s.config.window_height,
                },
            ],
        );
    }
    let config = s.config.sized(width, height);
    let generation = (s.resize_save_generation + 1) as u64;
    lemma_between_tells(
        AppState { config, resize_save_generation: generation, ..s },
        seq![],
        seq![ActionView::ScheduleSave { generation, config }],
    );
    if idx < s.tabs.len() {
        let on = AppState { active_tab: idx as int, ..s };
        lemma_between_tells(on, seq![], seq![]);
        assert(on.relaid_between(seq![], seq![]).actions =~= on.relaid().actions);
    }
}

proof fn lemma_none_told(actions: Seq<ActionView>, id: PaneId)
    requires
        forall|k: int| 0 <= k < actions.len() ==> !tells(#[trigger] actions[k], id),
    ensures
        told(actions, id) == Seq::<ActionView>::empty(),
    decreases actions.len(),
{
    reveal(Seq::filter);
    if actions.len() > 0 {
        let front = actions.drop_last();
        assert forall|k: int| 0 <= k < front.len() implies !tells(#[trigger] front[k], id) by {
            assert(front[k] == actions[k]);
        }
        lemma_none_told(front, id);
        assert(!tells(actions[actions.len() - 1], id));
    }
}

proof fn lemma_told_together(a: Seq<ActionView>, b: Seq<ActionView>, id: PaneId)
    ensures
        told(a + b, id) == told(a, id) + told(b, id),
{
    Seq::filter_distributes_over_add(a, b, |action: ActionView| tells(action, id));
}

proof fn lemma_all_told(id: PaneId, cols: u16, rows: u16)
    ensures
        told(told_size(id, cols, rows), id) == told_size(id, cols, rows),
{
    reveal(Seq::filter);
    let all = told_size(id, cols, rows);
    let two = all.drop_last();
    let one = two.drop_last();
    let none = one.drop_last();
    let p = |action: ActionView| tells(action, id);
    assert(none.len() == 0);
    assert(one.filter(p) =~= one);
    assert(two.filter(p) =~= two);
    assert(all.filter(p) =~= all);
}

/// Panes whose actions tell the terminal nothing tell it nothing together.
proof fn lemma_others_tell_nothing(
    ids: Seq<PaneId>,
    f: spec_fn(PaneId) -> Seq<ActionView>,
    id: PaneId,
)
    requires
        forall|k: int| 0 <= k < ids.len() ==> told(f(#[trigger] ids[k]), id).len() == 0,
    ensures
        told(ids.flat_map(f), id).len() == 0,
    decreases ids.len(),
{
    if ids.len() == 0 {
        assert(ids.map_values(f) =~= seq![]);
        assert(ids.flat_map(f).len() == 0);
        lemma_none_told(ids.flat_map(f), id);
    } else {
        let front = ids.drop_last();
        let last = ids.last();
        assert forall|k: int| 0 <= k < front.len() implies told(f(#[trigger] front[k]), id).len()
            == 0 by {
            assert(front[k] == ids[k]);
        }
        lemma_others_tell_nothing(front, f, id);
        front.lemma_flat_map_push(f, last);
        assert(ids == front.push(last));
        assert(last == ids[ids.len() - 1]);
        lemma_told_together(front.flat_map(f), f(last), id);
    }
}

/// What laying out tells the terminal of the pane at `at` is what that pane asks for.
proof fn lemma_one_tells(
    ids: Seq<PaneId>,
    f: spec_fn(PaneId) -> Seq<ActionView>,
    id: PaneId,
    at: int,
)
    requires
        0 <= at < ids.len(),
        forall|k: int|
            0 <= k < ids.len() && k != at ==> told(f(#[trigger] ids[k]), id).len() == 0,
    ensures
        told(ids.flat_map(f), id) == told(f(ids[at]), id),
    decreases ids.len(),
{
    let front = ids.drop_last();
    let last = ids.last();
    assert forall|k: int| 0 <= k < front.len() && k != at implies told(
        f(#[trigger] front[k]),
        id,
    ).len() == 0 by {
        assert(front[k] == ids[k]);
    }
    front.lemma_flat_map_push(f, last);
    assert(ids == front.push(last));
    assert(last == ids[ids.len() - 1]);
    lemma_told_together(front.flat_map(f), f(last), id);
    if at == ids.len() - 1 {
        lemma_others_tell_nothing(front, f, id);
        assert(told(front.flat_map(f), id) + told(f(last), id) =~= told(f(last), id));
    } else {
        lemma_one_tells(front, f, id, at);
        assert(told(f(last), id).len() == 0);
        assert(told(front.flat_map(f), id) + told(f(last), id) =~= told(front.flat_map(f), id));
    }
}

/// What laying out tells one pane's terminal.
proof fn lemma_layout_tells(
    ids: Seq<PaneId>,
    f: spec_fn(PaneId) -> Seq<ActionView>,
    id: PaneId,
)
    requires
        ids.no_duplicates(),
        forall|x: PaneId, k: int| x != id && 0 <= k < f(x).len() ==> !tells(#[trigger] f(x)[k], id),
        told(f(id), id) == f(id),
    ensures
        told(ids.flat_map(f), id) == (if ids.contains(id) {
            f(id)
        } else {
            seq![]
        }),
{
    assert forall|k: int| 0 <= k < ids.len() && ids[k] != id implies told(
        f(#[trigger] ids[k]),
        id,
    ).len() == 0 by {
        lemma_none_told(f(ids[k]), id);
    }
    if ids.contains(id) {
        lemma_one_tells(ids, f, id, ids.index_of(id));
    } else {
        assert forall|k: int| 0 <= k < ids.len() implies told(f(#[trigger] ids[k]), id).len()
            == 0 by {
            assert(ids.contains(ids[k]));
        }
        lemma_others_tell_nothing(ids, f, id);
    }
}

/// Laying out tells each terminal exactly what changes, and lays out.
proof fn lemma_relaid(t: AppState, j: int, id: PaneId)
    requires
        t.has_active_tab() ==> t.active().wf(),
        t.holds(j, id),
        forall|i: int| t.has_active_tab() && #[trigger] t.holds(i, id) ==> i == j,
    ensures
        t.relaid().state.holds(j, id),
        told(t.relaid().actions, id) == news(
            id,
            t.tabs[j].panes[id].last_size,
            t.relaid().state.tabs[j].panes[id].last_size,
        ),
        j != t.active_tab ==> t.relaid().state.tabs[j] == t.tabs[j],
{
    if t.has_active_tab() {
        let tab = t.active();
        let window = t.window_cells();
        let ids = tab.columns.flatten();
        let f = |x: PaneId| tab.pane_layout_actions(window, x);
        crate::grid::lemma_flatten_members(tab.columns);
        crate::grid::lemma_flatten_distinct(tab.columns);
        assert forall|x: PaneId, k: int| x != id && 0 <= k < f(x).len() implies !tells(
            #[trigger] f(x)[k],
            id,
        ) by {}
        let size = tab.pane_size(window, id);
        assert(crate::action::for_terminal(
            id,
            crate::terminal::resize_commands(size.0, size.1),
        ) =~= told_size(id, size.0, size.1));
        lemma_all_told(id, size.0, size.1);
        lemma_none_told(seq![], id);
        assert(told(f(id), id) == f(id));
        lemma_layout_tells(ids, f, id);
        assert(ids.contains(id) <==> tab.panes.contains_key(id));
        if tab.panes.contains_key(id) {
            assert(t.holds(t.active_tab, id));
        }
    } else {
        lemma_none_told(t.relaid().actions, id);
    }
}

proof fn lemma_between(
    t: AppState,
    before: Seq<ActionView>,
    after: Seq<ActionView>,
    j: int,
    id: PaneId,
)
    requires
        t.has_active_tab() ==> t.active().wf(),
        t.holds(j, id),
        forall|i: int| t.has_active_tab() && #[trigger] t.holds(i, id) ==> i == j,
        forall|k: int| 0 <= k < before.len() ==> !tells(#[trigger] before[k], id),
        forall|k: int| 0 <= k < after.len() ==> !tells(#[trigger] after[k], id),
    ensures
        told(t.relaid_between(before, after).actions, id) == news(
            id,
            t.tabs[j].panes[id].last_size,
            t.relaid_between(before, after).state.tabs[j].panes[id].last_size,
        ),
        j != t.active_tab ==> t.relaid_between(before, after).state.tabs[j] == t.tabs[j],
{
    lemma_relaid(t, j, id);
    let laid_out = t.relaid().actions;
    lemma_told_together(before + laid_out, after, id);
    lemma_told_together(before, laid_out, id);
    lemma_none_told(before, id);
    lemma_none_told(after, id);
    assert(told(before, id) + told(laid_out, id) + told(after, id) =~= told(laid_out, id));
}

/// Whether a step tells the pane's terminal exactly what changes, and changes the
/// size only of a pane in the tab that is then active.
pub open spec fn tells_changes(
    s: AppState,
    step: crate::state::Step,
    id: PaneId,
    i: int,
    j: int,
) -> bool {
    &&& told(step.actions, id) == news(
        id,
        s.tabs[i].panes[id].last_size,
        step.state.tabs[j].panes[id].last_size,
    )
    &&& j != step.state.active_tab ==> step.state.tabs[j].panes[id] == s.tabs[i].panes[id]
}

proof fn lemma_unique(s: AppState, i: int, id: PaneId)
    requires
        s.wf(),
        s.holds(i, id),
    ensures
        forall|k: int| #[trigger] s.holds(k, id) ==> k == i,
{
}

proof fn lemma_quiet(s: AppState, step: crate::state::Step, id: PaneId, i: int, j: int)
    requires
        s.wf(),
        s.holds(i, id),
        step.state.holds(j, id),
        forall|k: int| 0 <= k < step.actions.len() ==> !tells(#[trigger] step.actions[k], id),
        step.state.tabs.len() >= s.tabs.len(),
        forall|k: int|
            0 <= k < s.tabs.len() ==> (#[trigger] step.state.tabs[k]).panes == s.tabs[k].panes,
        forall|k: int|
            s.tabs.len() <= k < step.state.tabs.len() ==> !(
            #[trigger] step.state.tabs[k]).panes.contains_key(id),
    ensures
        tells_changes(s, step, id, i, j),
{
    assert(j < s.tabs.len());
    assert(s.holds(j, id));
    lemma_unique(s, i, id);
    lemma_none_told(step.actions, id);
}

proof fn lemma_same_tabs(
    s: AppState,
    t: AppState,
    before: Seq<ActionView>,
    after: Seq<ActionView>,
    id: PaneId,
    i: int,
    j: int,
)
    requires
        s.wf(),
        s.holds(i, id),
        t.tabs == s.tabs,
        t.relaid().state.holds(j, id),
        forall|k: int| 0 <= k < before.len() ==> !tells(#[trigger] before[k], id),
        forall|k: int| 0 <= k < after.len() ==> !tells(#[trigger] after[k], id),
    ensures
        tells_changes(s, t.relaid_between(before, after), id, i, j),
        tells_changes(s, t.relaid(), id, i, j),
{
    assert forall|k: int| #[trigger] t.holds(k, id) implies k == i by {
        assert(s.holds(k, id));
    }
    assert(t.holds(i, id));
    if j != t.active_tab {
        assert(t.holds(j, id));
    } else {
        assert(t.active().panes.contains_key(id));
        assert(t.holds(j, id));
    }
    lemma_between(t, before, after, i, id);
    lemma_relaid(t, i, id);
}

proof fn lemma_split(s: AppState, direction: SplitDirection, id: PaneId, i: int, j: int)
    requires
        s.wf(),
        s.split_opens_pane(direction) ==> s.next_pane_id < u64::MAX,
        s.holds(i, id),
        s.split_pane(direction).state.holds(j, id),
    ensures
        tells_changes(s, s.split_pane(direction), id, i, j),
{
    if s.split_opens_pane(direction) {
        let new = s.next_pane_id;
        let size = s.active().split_size(direction, s.window_cells());
        let tab = s.active().split(direction, new, size);
        let t = AppState { next_pane_id: (new + 1) as PaneId, ..s.with_active(tab) };
        if s.active().panes.contains_key(new) {
            assert(s.holds(s.active_tab, new));
        }
        crate::tab::lemma_split_wf(s.active(), direction, new, size);
        assert(id != new);
        assert forall|k: int| #[trigger] t.holds(k, id) implies k == i by {
            assert(s.holds(k, id));
        }
        assert(t.holds(i, id));
        if j != s.active_tab {
            assert(t.holds(j, id));
        } else {
            assert(t.active().panes.contains_key(id));
            assert(t.holds(j, id));
        }
        lemma_between(
            t,
            seq![ActionView::SpawnTerminal { pane: new, cols: size.0, rows: size.1 }],
            seq![],
            i,
            id,
        );
    } else {
        lemma_quiet(s, s.split_pane(direction), id, i, j);
    }
}

proof fn lemma_close_tab(s: AppState, idx: int, id: PaneId, i: int, j: int)
    requires
        s.wf(),
        s.holds(i, id),
        s.close_tab(idx).state.holds(j, id),
    ensures
        tells_changes(s, s.close_tab(idx), id, i, j),
{
    if 0 <= idx < s.tabs.len() && s.tabs.len() > 1 {
        let t = AppState {
            tabs: crate::state::renumbered(s.tabs.remove(idx)),
            active_tab: crate::state::focus_after_close(s.active_tab, idx, s.tabs.len() - 1),
            ..s
        };
        let ended = s.tabs[idx].shutdown_actions();
        assert forall|k: int| #[trigger] t.holds(k, id) implies i == (if k < idx {
            k
        } else {
            k + 1
        }) by {
            assert(s.holds(if k < idx {
                k
            } else {
                k + 1
            }, id));
        }
        if t.has_active_tab() {
            let back = if t.active_tab < idx {
                t.active_tab
            } else {
                t.active_tab + 1
            };
            assert(s.tabs[back].wf());
        }
        if j != t.active_tab {
            assert(t.holds(j, id));
        } else {
            assert(t.active().panes.contains_key(id));
            assert(t.holds(j, id));
        }
        lemma_between(t, ended, seq![], j, id);
    } else {
        lemma_quiet(s, s.close_tab(idx), id, i, j);
    }
}

proof fn lemma_pane_gone(s: AppState, at: int, gone: PaneId, id: PaneId, i: int, j: int)
    requires
        s.wf(),
        s.holds(i, id),
        s.holds(at, gone),
        s.tabs[at].without_pane(gone).wf(),
        (AppState {
            tabs: s.tabs.update(at, s.tabs[at].without_pane(gone)),
            ..s
        }).relaid().state.holds(j, id),
    ensures
        tells_changes(
            s,
            (AppState {
                tabs: s.tabs.update(at, s.tabs[at].without_pane(gone)),
                ..s
            }).relaid_between(seq![ActionView::Terminal(gone, CommandView::Shutdown)], seq![]),
            id,
            i,
            j,
        ),
{
    let t = AppState { tabs: s.tabs.update(at, s.tabs[at].without_pane(gone)), ..s };
    assert forall|k: int| #[trigger] t.holds(k, id) implies k == i by {
        assert(s.holds(k, id));
    }
    if j != t.active_tab {
        assert(t.holds(j, id));
    } else {
        assert(t.active().panes.contains_key(id));
        assert(t.holds(j, id));
    }
    lemma_between(t, seq![ActionView::Terminal(gone, CommandView::Shutdown)], seq![], j, id);
}

proof fn lemma_close_pane(s: AppState, gone: PaneId, id: PaneId, i: int, j: int)
    requires
        s.wf(),
        s.holds(i, id),
        s.close_pane(gone).state.holds(j, id),
    ensures
        tells_changes(s, s.close_pane(gone), id, i, j),
{
    if s.has_pane(gone) {
        let at = s.tab_of(gone);
        assert(s.holds(at, gone));
        if s.tabs[at].columns.flatten().len() <= 1 {
            lemma_close_tab(s, at, id, i, j);
        } else {
            crate::laws::order::lemma_without_pane(s.tabs[at], gone);
            lemma_pane_gone(s, at, gone, id, i, j);
        }
    } else {
        lemma_quiet(s, s.close_pane(gone), id, i, j);
    }
}

proof fn lemma_toggle_popup(s: AppState, around: Surroundings, id: PaneId, i: int, j: int)
    requires
        s.wf(),
        s.holds(i, id),
        s.toggle_popup(around).state.holds(j, id),
    ensures
        tells_changes(s, s.toggle_popup(around), id, i, j),
{
    if s.window_id is None {
        let shown = AppState {
            window_id: Some(around.fresh_window),
            surface_opened_at: Some(around.now),
            ..s
        };
        lemma_same_tabs(
            s,
            shown,
            seq![],
            seq![
                ActionView::OpenSurface {
                    window: around.fresh_window,
                    width: s.config.window_width,
                    height: s.config.window_height,
                },
            ],
            id,
            i,
            j,
        );
    } else {
        lemma_quiet(s, s.toggle_popup(around), id, i, j);
    }
}

proof fn lemma_select_tab(s: AppState, idx: int, id: PaneId, i: int, j: int)
    requires
        s.wf(),
        s.holds(i, id),
        s.select_tab(idx).state.holds(j, id),
    ensures
        tells_changes(s, s.select_tab(idx), id, i, j),
{
    if 0 <= idx < s.tabs.len() {
        lemma_same_tabs(s, AppState { active_tab: idx, ..s }, seq![], seq![], id, i, j);
    } else {
        lemma_quiet(s, s.select_tab(idx), id, i, j);
    }
}

proof fn lemma_new_tab(s: AppState, id: PaneId, i: int, j: int)
    requires
        s.wf(),
        s.holds(i, id),
        s.new_tab().state.holds(j, id),
    ensures
        tells_changes(s, s.new_tab(), id, i, j),
{
    assert(id < s.next_pane_id);
    lemma_quiet(s, s.new_tab(), id, i, j);
}

proof fn lemma_message(
    s: AppState,
    message: Message,
    around: Surroundings,
    id: PaneId,
    i: int,
    j: int,
)
    requires
        s.wf(),
        s.can_take(message),
        !(message is KeyPressed),
        s.holds(i, id),
        s.step(message, around).state.holds(j, id),
        message matches Message::TerminalUpdated(x) ==> x != id,
        message matches Message::PaneScroll(x, _) ==> x != id,
    ensures
        tells_changes(s, s.step(message, around), id, i, j),
{
    let step = s.step(message, around);
    match message {
        Message::TogglePopup => lemma_toggle_popup(s, around, id, i, j),
        Message::SplitPane(direction) => lemma_split(s, direction, id, i, j),
        Message::ClosePane(gone) => lemma_close_pane(s, gone, id, i, j),
        Message::NewTab => lemma_new_tab(s, id, i, j),
        Message::CloseTab(idx) => lemma_close_tab(s, idx as int, id, i, j),
        Message::SelectTab(idx) => lemma_select_tab(s, idx as int, id, i, j),
        Message::CycleTabNext => lemma_select_tab(
            s,
            (s.active_tab + 1) % (s.tabs.len() as int),
            id,
            i,
            j,
        ),
        Message::CycleTabPrev => lemma_select_tab(
            s,
            (s.active_tab - 1) % (s.tabs.len() as int),
            id,
            i,
            j,
        ),
        Message::Resized(window, width, height) => {
            if s.window_id != Some(window) || s.just_opened(around.now, RESIZE_GRACE) {
                lemma_quiet(s, step, id, i, j);
            } else {
                let config = s.config.sized(width, height);
                let generation = (s.resize_save_generation + 1) as u64;
                lemma_same_tabs(
                    s,
                    AppState { config, resize_save_generation: generation, ..s },
                    seq![],
                    seq![ActionView::ScheduleSave { generation, config }],
                    id,
                    i,
                    j,
                );
            }
        },
        _ => lemma_quiet(s, step, id, i, j),
    }
}

/// Whatever happens, a terminal is told of its pane's new size if, and only if, that
/// changes; and it changes only for panes of the tab that is then active. Nothing
/// else has a pane drawn anew, but news of it and the wheel over it.
pub proof fn law_terminals_know_their_sizes(
    s: AppState,
    message: Message,
    around: Surroundings,
    id: PaneId,
    i: int,
    j: int,
)
    requires
        s.wf(),
        s.can_take(message),
        0 <= i < s.tabs.len(),
        s.tabs[i].panes.contains_key(id),
        0 <= j < s.step(message, around).state.tabs.len(),
        s.step(message, around).state.tabs[j].panes.contains_key(id),
        message matches Message::TerminalUpdated(x) ==> x != id,
        message matches Message::PaneScroll(x, _) ==> x != id,
    ensures
        tells_changes(s, s.step(message, around), id, i, j),
{
    assert(s.holds(i, id));
    assert(s.step(message, around).state.holds(j, id));
    match message {
        Message::KeyPressed(key, modifiers, text) => {
            crate::laws::keyboard::law_shortcuts_are_messages(s, key, modifiers, text, around);
            match crate::keys::shortcut_of(key, modifiers) {
                None => lemma_quiet(s, s.step(message, around), id, i, j),
                Some(shortcut) => match shortcut {
                    crate::keys::Shortcut::TogglePopup => lemma_toggle_popup(s, around, id, i, j),
                    crate::keys::Shortcut::SplitHorizontal => lemma_split(
                        s,
                        SplitDirection::Horizontal,
                        id,
                        i,
                        j,
                    ),
                    crate::keys::Shortcut::SplitVertical => lemma_split(
                        s,
                        SplitDirection::Vertical,
                        id,
                        i,
                        j,
                    ),
                    crate::keys::Shortcut::ClosePane => lemma_close_pane(
                        s,
                        s.active().active_pane,
                        id,
                        i,
                        j,
                    ),
                    crate::keys::Shortcut::NewTab => lemma_new_tab(s, id, i, j),
                    crate::keys::Shortcut::CloseTab => lemma_close_tab(s, s.active_tab, id, i, j),
                    crate::keys::Shortcut::NextTab => lemma_select_tab(
                        s,
                        (s.active_tab + 1) % (s.tabs.len() as int),
                        id,
                        i,
                        j,
                    ),
                    crate::keys::Shortcut::PreviousTab => lemma_select_tab(
                        s,
                        (s.active_tab - 1) % (s.tabs.len() as int),
                        id,
                        i,
                        j,
                    ),
                    _ => lemma_quiet(s, s.step(message, around), id, i, j),
                },
            }
        },
        _ => lemma_message(s, message, around, id, i, j),
    }
}

proof fn lemma_laid_out(t: AppState)
    requires
        t.has_active_tab() ==> t.active().wf(),
    ensures
        is_laid_out(t.relaid().state),
{
    if t.has_active_tab() {
        let tab = t.active();
        let after = t.relaid().state.tabs[t.active_tab];
        assert forall|c: int, r: int|
            0 <= c < after.columns.len() && 0 <= r < after.columns[c].len() implies tab.panes.contains_key(
            #[trigger] after.columns[c][r],
        ) && crate::grid::location(tab.columns, after.columns[c][r]) == (c, r) by {
            let id = after.columns[c][r];
            assert(crate::grid::at(tab.columns, c, r, id));
            crate::grid::lemma_location(tab.columns, c, r, id);
        }
    }
}

/// Whatever shows a tab, or changes the grid or the window, leaves the panes of the
/// active tab with equal shares of the window.
pub proof fn law_active_tab_is_laid_out(s: AppState, message: Message, around: Surroundings)
    requires
        s.wf(),
        s.can_take(message),
        match message {
            Message::TogglePopup => s.window_id is None,
            Message::SelectTab(idx) => idx < s.tabs.len(),
            Message::CycleTabNext => true,
            Message::CycleTabPrev => true,
            Message::CloseTab(idx) => idx < s.tabs.len(),
            Message::ClosePane(id) => exists|i: int|
                0 <= i < s.tabs.len() && (#[trigger] s.tabs[i]).panes.contains_key(id),
            Message::SplitPane(_) => s.step(message, around).state.next_pane_id
                != s.next_pane_id,
            Message::Resized(id, _, _) => s.window_id == Some(id) && (
            s.surface_opened_at matches Some(opened) ==> around.now >= opened + 300_000_000),
            Message::NewTab => s.tabs.len() < 15,
            _ => false,
        },
    ensures
        is_laid_out(s.step(message, around).state),
{
    match message {
        Message::TogglePopup => {
            let shown = AppState {
                window_id: Some(around.fresh_window),
                surface_opened_at: Some(around.now),
                ..s
            };
            if s.tabs.len() == 0 {
                lemma_opened(shown);
            } else {
                lemma_laid_out(shown);
            }
        },
        Message::SelectTab(idx) => lemma_laid_out(AppState { active_tab: idx as int, ..s }),
        Message::CycleTabNext => {
            if s.tabs.len() > 0 {
                let to = (s.active_tab + 1) % (s.tabs.len() as int);
                lemma_laid_out(AppState { active_tab: to, ..s });
            }
        },
        Message::CycleTabPrev => {
            if s.tabs.len() > 0 {
                let to = (s.active_tab - 1) % (s.tabs.len() as int);
                lemma_laid_out(AppState { active_tab: to, ..s });
            }
        },
        Message::CloseTab(idx) => lemma_close_tab_lays_out(s, idx as int),
        Message::ClosePane(id) => {
            crate::laws::window::law_pane_is_in_a_tab(s, id);
            let at = s.tab_of(id);
            assert(s.holds(at, id));
            if s.tabs[at].columns.flatten().len() <= 1 {
                lemma_close_tab_lays_out(s, at);
            } else {
                crate::grid::lemma_without(s.tabs[at].columns, id);
                assert(s.tabs[at].without_pane(id).wf());
                lemma_laid_out(
                    AppState { tabs: s.tabs.update(at, s.tabs[at].without_pane(id)), ..s },
                );
            }
        },
        Message::SplitPane(direction) => {
            let new = s.next_pane_id;
            let size = s.active().split_size(direction, s.window_cells());
            let tab = s.active().split(direction, new, size);
            if s.active().panes.contains_key(new) {
                assert(s.holds(s.active_tab, new));
            }
            crate::tab::lemma_split_wf(s.active(), direction, new, size);
            lemma_laid_out(
                AppState { next_pane_id: (new + 1) as PaneId, ..s.with_active(tab) },
            );
        },
        Message::Resized(id, width, height) => {
            lemma_laid_out(
                AppState {
                    config: s.config.sized(width, height),
                    resize_save_generation: (s.resize_save_generation + 1) as u64,
                    ..s
                },
            );
        },
        _ => lemma_opened(s),
    }
}

proof fn lemma_opened(s: AppState)
    ensures
        is_laid_out(s.opened_tab().state),
{
    let window = s.window_cells();
    assert(window.0 as int / 1 == window.0 && window.1 as int / 1 == window.1);
}

proof fn lemma_close_tab_lays_out(s: AppState, idx: int)
    requires
        s.wf(),
        0 <= idx < s.tabs.len(),
    ensures
        is_laid_out(s.close_tab(idx).state),
{
    if s.tabs.len() > 1 {
        let t = AppState {
            tabs: crate::state::renumbered(s.tabs.remove(idx)),
            active_tab: crate::state::focus_after_close(s.active_tab, idx, s.tabs.len() - 1),
            ..s
        };
        let back = if t.active_tab < idx {
            t.active_tab
        } else {
            t.active_tab + 1
        };
        assert(s.tabs[back].wf());
        assert(t.active().wf());
        lemma_laid_out(t);
    }
}

} // verus!
