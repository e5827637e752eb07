//! What holds over many messages.

use crate::action::ActionView;
use crate::config::AppConfig;
use crate::message::{Message, WindowId};
use crate::pane::PaneId;
use crate::state::{AppState, Step, Surroundings, RESIZE_GRACE, SAVE_DELAY};
use crate::tab::TabState;
use vstd::prelude::*;

verus! {

/// The state after the first `n` messages of a history.
pub open spec fn run(s: AppState, history: Seq<(Message, Surroundings)>, n: int) -> AppState
    decreases n,
{
    if n <= 0 {
        s
    } else {
        run(s, history, n - 1).step(history[n - 1].0, history[n - 1].1).state
    }
}

/// Whether every message of a history can be dealt with when it comes.
pub open spec fn can_run(s: AppState, history: Seq<(Message, Surroundings)>) -> bool {
    forall|n: int|
        0 <= n < history.len() ==> (#[trigger] run(s, history, n)).can_take(history[n].0)
}

/// Whatever happens and however often, the state stays in order, and the names of
/// panes are given in rising order.
pub proof fn law_order_lasts(s: AppState, history: Seq<(Message, Surroundings)>, n: int)
    requires
        s.wf(),
        can_run(s, history),
        0 <= n <= history.len(),
    ensures
        run(s, history, n).wf(),
        run(s, history, n).next_pane_id >= s.next_pane_id,
    decreases n,
{
    if n > 0 {
        let before = run(s, history, n - 1);
        law_order_lasts(s, history, n - 1);
        crate::laws::order::law_order_is_kept(before, history[n - 1].0, history[n - 1].1);
        crate::laws::terminals::law_terminals_follow_panes(
            before,
            history[n - 1].0,
            history[n - 1].1,
        );
    }
}

/// A name is given once: a pane that was closed never comes back, and no other pane
/// gets its name.
pub proof fn law_names_are_given_once(
    s: AppState,
    history: Seq<(Message, Surroundings)>,
    n: int,
    id: PaneId,
)
    requires
        s.wf(),
        can_run(s, history),
        0 <= n <= history.len(),
        id < s.next_pane_id,
        !s.has_pane(id),
    ensures
        !run(s, history, n).has_pane(id),
    decreases n,
{
    if n > 0 {
        let before = run(s, history, n - 1);
        law_names_are_given_once(s, history, n - 1, id);
        law_order_lasts(s, history, n - 1);
        crate::laws::terminals::law_terminals_follow_panes(
            before,
            history[n - 1].0,
            history[n - 1].1,
        );
    }
}

/// A resize, and what is known when it comes.
pub struct Resize {
    pub width: u32,
    pub height: u32,
    pub around: Surroundings,
}

/// The message that tells of a resize of the surface `id`.
pub open spec fn resize_message(id: WindowId, resize: Resize) -> Message {
    Message::Resized(id, resize.width, resize.height)
}

/// The state after the first `n` of some resizes.
pub open spec fn after_resizes(s: AppState, id: WindowId, resizes: Seq<Resize>, n: int) -> AppState
    decreases n,
{
    if n <= 0 {
        s
    } else {
        after_resizes(s, id, resizes, n - 1).step(
            resize_message(id, resizes[n - 1]),
            resizes[n - 1].around,
        ).state
    }
}

/// What the resize `i` leads to, after those before it.
pub open spec fn resize_step(s: AppState, id: WindowId, resizes: Seq<Resize>, i: int) -> Step {
    after_resizes(s, id, resizes, i).step(resize_message(id, resizes[i]), resizes[i].around)
}

/// Whether the resizes are of the surface that is shown, none of them right after
/// that was opened, and not too many to be counted.
pub open spec fn accepted(s: AppState, id: WindowId, resizes: Seq<Resize>) -> bool {
    &&& s.window_id == Some(id)
    &&& forall|i: int|
        0 <= i < resizes.len() ==> !s.just_opened(
            (#[trigger] resizes[i]).around.now,
            RESIZE_GRACE,
        )
    &&& s.resize_save_generation + resizes.len() <= u64::MAX
}

/// The settings after a resize.
pub open spec fn resized_config(s: AppState, resize: Resize) -> AppConfig {
    s.config.sized(resize.width, resize.height)
}

/// The number of the resize `i`.
pub open spec fn number_of(s: AppState, i: int) -> u64 {
    (s.resize_save_generation + i + 1) as u64
}

/// Whether the actions give terminals their sizes and then schedule these settings
/// for saving, under this number, and nothing else.
pub open spec fn schedules(actions: Seq<ActionView>, generation: u64, config: AppConfig) -> bool {
    &&& actions.len() > 0
    &&& actions.last() == ActionView::ScheduleSave { generation, config }
    &&& forall|k: int|
        0 <= k < actions.len() - 1 ==> crate::laws::terminals::only_sizes(#[trigger] actions[k])
}

proof fn lemma_after_resizes(s: AppState, id: WindowId, resizes: Seq<Resize>, n: int)
    requires
        accepted(s, id, resizes),
        0 <= n <= resizes.len(),
    ensures
        after_resizes(s, id, resizes, n).window_id == s.window_id,
        after_resizes(s, id, resizes, n).surface_opened_at == s.surface_opened_at,
        after_resizes(s, id, resizes, n).resize_save_generation == s.resize_save_generation + n,
        after_resizes(s, id, resizes, n).config == (if n == 0 {
            s.config
        } else {
            resized_config(s, resizes[n - 1])
        }),
    decreases n,
{
    if n > 0 {
        lemma_after_resizes(s, id, resizes, n - 1);
        assert(!s.just_opened(resizes[n - 1].around.now, RESIZE_GRACE));
    }
}

/// Of any number of resizes, each schedules its own size for saving, under numbers
/// that follow each other, and once all of them have come only the last is still to
/// be saved. That one has the last size, though never one below the smallest.
pub proof fn law_last_resize_is_saved(s: AppState, id: WindowId, resizes: Seq<Resize>, i: int)
    requires
        accepted(s, id, resizes),
        0 <= i < resizes.len(),
    ensures
        after_resizes(s, id, resizes, i).can_take(resize_message(id, resizes[i])),
        schedules(
            resize_step(s, id, resizes, i).actions,
            number_of(s, i),
            resized_config(s, resizes[i]),
        ),
        number_of(s, i) == s.resize_save_generation + i + 1,
        crate::state::save_due(
            after_resizes(s, id, resizes, resizes.len() as int).resize_save_generation,
            number_of(s, i),
        ) <==> i == resizes.len() - 1,
        after_resizes(s, id, resizes, resizes.len() as int).config == resized_config(
            s,
            resizes.last(),
        ),
        resized_config(s, resizes[i]).window_width == crate::config::at_least(
            resizes[i].width,
            500,
        ),
        resized_config(s, resizes[i]).window_height == crate::config::at_least(
            resizes[i].height,
            300,
        ),
{
    lemma_after_resizes(s, id, resizes, i);
    lemma_after_resizes(s, id, resizes, resizes.len() as int);
    assert(!s.just_opened(resizes[i].around.now, RESIZE_GRACE));
    let before = after_resizes(s, id, resizes, i);
    let step = resize_step(s, id, resizes, i);
    let sized = AppState {
        config: before.config.sized(resizes[i].width, resizes[i].height),
        resize_save_generation: number_of(s, i),
        ..before
    };
    let laid_out = sized.relaid().actions;
    crate::laws::terminals::lemma_relaid_only_sizes(sized);
    assert(step.actions =~= laid_out.push(
        ActionView::ScheduleSave {
            generation: number_of(s, i),
            config: resized_config(s, resizes[i]),
        },
    ));
    assert forall|k: int| 0 <= k < step.actions.len() - 1 implies crate::laws::terminals::only_sizes(
        #[trigger] step.actions[k],
    ) by {
        assert(step.actions[k] == laid_out[k]);
    }
}

/// How many of the resizes have come by the time `t`.
pub open spec fn seen_by(resizes: Seq<Resize>, t: int) -> int
    decreases resizes.len(),
{
    if resizes.len() == 0 {
        0
    } else if resizes.last().around.now <= t {
        resizes.len() as int
    } else {
        seen_by(resizes.drop_last(), t)
    }
}

proof fn lemma_seen_by(resizes: Seq<Resize>, t: int, j: int)
    requires
        0 <= j < resizes.len(),
        resizes[j].around.now <= t,
    ensures
        j < seen_by(resizes, t) <= resizes.len(),
    decreases resizes.len(),
{
    if resizes.last().around.now > t {
        lemma_seen_by(resizes.drop_last(), t, j);
    }
}

/// Whether the settings of the resize `i` are written when they have waited: that
/// is decided by the number of the last resize at that time.
pub open spec fn is_written(s: AppState, id: WindowId, resizes: Seq<Resize>, i: int) -> bool {
    let then = resizes[i].around.now + SAVE_DELAY;
    crate::state::save_due(
        after_resizes(s, id, resizes, seen_by(resizes, then)).resize_save_generation,
        number_of(s, i),
    )
}

/// Whether the resize after `i` comes while the settings of `i` still wait.
pub open spec fn follows_closely(resizes: Seq<Resize>, i: int) -> bool {
    resizes[i].around.now <= resizes[i + 1].around.now < resizes[i].around.now + SAVE_DELAY
}

proof fn lemma_burst_starts_first(resizes: Seq<Resize>, i: int)
    requires
        forall|j: int| 0 <= j < resizes.len() - 1 ==> #[trigger] follows_closely(resizes, j),
        0 <= i < resizes.len(),
    ensures
        resizes[0].around.now <= resizes[i].around.now,
    decreases i,
{
    if i > 0 {
        lemma_burst_starts_first(resizes, i - 1);
        assert(follows_closely(resizes, i - 1));
    }
}

/// A burst of resizes, each of which comes while the settings of the one before
/// still wait, is saved once: of all the settings that it schedules, only those of
/// the last resize are written.
pub proof fn law_burst_is_saved_once(s: AppState, id: WindowId, resizes: Seq<Resize>, i: int)
    requires
        s.window_id == Some(id),
        s.resize_save_generation + resizes.len() <= u64::MAX,
        0 <= i < resizes.len(),
        !s.just_opened(resizes[0].around.now, RESIZE_GRACE),
        forall|j: int| 0 <= j < resizes.len() - 1 ==> #[trigger] follows_closely(resizes, j),
    ensures
        schedules(
            resize_step(s, id, resizes, i).actions,
            number_of(s, i),
            resized_config(s, resizes[i]),
        ),
        is_written(s, id, resizes, i) <==> i == resizes.len() - 1,
{
    assert forall|j: int| 0 <= j < resizes.len() implies !s.just_opened(
        (#[trigger] resizes[j]).around.now,
        RESIZE_GRACE,
    ) by {
        lemma_burst_starts_first(resizes, j);
    }
    law_last_resize_is_saved(s, id, resizes, i);
    let then = resizes[i].around.now + SAVE_DELAY;
    lemma_seen_by(resizes, then, i);
    lemma_after_resizes(s, id, resizes, seen_by(resizes, then));
    if i < resizes.len() - 1 {
        assert(follows_closely(resizes, i));
        lemma_seen_by(resizes, then, i + 1);
    }
}

/// The state after a message has come `n` times.
pub open spec fn repeated(s: AppState, message: Message, around: Surroundings, n: int) -> AppState
    decreases n,
{
    if n <= 0 {
        s
    } else {
        repeated(s, message, around, n - 1).step(message, around).state
    }
}

/// The place that is `n` steps from `from`, forwards or backwards, round a circle of
/// `len` places.
pub open spec fn place(from: int, forwards: bool, n: int, len: int) -> int {
    if forwards {
        (from + n) % len
    } else {
        (from - n) % len
    }
}

proof fn lemma_place_step(from: int, forwards: bool, n: int, len: int)
    requires
        len > 0,
    ensures
        0 <= place(from, forwards, n, len) < len,
        (place(from, forwards, n, len) + (if forwards {
            1int
        } else {
            -1
        })) % len == place(from, forwards, n + 1, len),
{
    if forwards {
        vstd::arithmetic::div_mod::lemma_add_mod_noop_right(1, from + n, len);
        assert(1 + (from + n) == from + (n + 1));
    } else {
        vstd::arithmetic::div_mod::lemma_add_mod_noop_right(-1, from - n, len);
        assert(-1 + (from - n) == from - (n + 1));
    }
}

/// The places on one way round are all different, they are all there are, and the
/// way ends where it began.
proof fn lemma_way_round(from: int, forwards: bool, len: int)
    requires
        0 <= from < len,
    ensures
        place(from, forwards, 0, len) == from,
        place(from, forwards, len, len) == from,
        forall|i: int, j: int|
            0 <= i < j < len ==> #[trigger] place(from, forwards, i, len) != #[trigger] place(
                from,
                forwards,
                j,
                len,
            ),
        forall|to: int|
            0 <= to < len ==> #[trigger] is_reached(from, forwards, len, to),
{
    vstd::arithmetic::div_mod::lemma_small_mod(from as nat, len as nat);
    vstd::arithmetic::div_mod::lemma_mod_add_multiples_vanish(from, len);
    vstd::arithmetic::div_mod::lemma_mod_sub_multiples_vanish(from, len);
    assert forall|i: int, j: int| 0 <= i < j < len implies #[trigger] place(from, forwards, i, len)
        != #[trigger] place(from, forwards, j, len) by {
        vstd::arithmetic::div_mod::lemma_small_mod((j - i) as nat, len as nat);
        if forwards {
            vstd::arithmetic::div_mod::lemma_mod_equivalence(from + j, from + i, len);
        } else {
            vstd::arithmetic::div_mod::lemma_mod_equivalence(from - i, from - j, len);
        }
    }
    assert forall|to: int| 0 <= to < len implies #[trigger] is_reached(from, forwards, len, to) by {
        vstd::arithmetic::div_mod::lemma_small_mod(to as nat, len as nat);
        if forwards {
            let n = (to - from) % len;
            vstd::arithmetic::div_mod::lemma_add_mod_noop_right(from, to - from, len);
            assert(place(from, forwards, n, len) == to);
        } else {
            let n = (from - to) % len;
            vstd::arithmetic::div_mod::lemma_sub_mod_noop_right(from, from - to, len);
            assert(place(from, forwards, n, len) == to);
        }
    }
}

/// Whether the place `to` is among those on one way round.
spec fn is_reached(from: int, forwards: bool, len: int, to: int) -> bool {
    exists|n: int| 0 <= n < len && #[trigger] place(from, forwards, n, len) == to
}

/// The message that moves the focus from pane to pane.
pub open spec fn pane_press(forwards: bool) -> Message {
    if forwards {
        Message::CyclePaneNext
    } else {
        Message::CyclePanePrev
    }
}

/// The pane that has the focus after the focus was moved `n` times.
pub open spec fn pane_after(s: AppState, forwards: bool, around: Surroundings, n: int) -> PaneId {
    repeated(s, pane_press(forwards), around, n).active().active_pane
}

proof fn lemma_pane_presses(s: AppState, forwards: bool, around: Surroundings, n: int)
    requires
        s.wf(),
        s.has_active_tab(),
        s.active().focus_ok(),
        n >= 0,
    ensures
        ({
            let ids = s.active().columns.flatten();
            let from = ids.index_of(s.active().active_pane);
            &&& ids.no_duplicates()
            &&& forall|id: PaneId| #[trigger] ids.contains(id) <==> s.active().panes.contains_key(id)
            &&& 0 <= from < ids.len()
            &&& ids[from] == s.active().active_pane
            &&& repeated(s, pane_press(forwards), around, n) == s.with_active(
                TabState {
                    active_pane: ids[place(from, forwards, n, ids.len() as int)],
                    ..s.active()
                },
            )
        }),
    decreases n,
{
    let ids = s.active().columns.flatten();
    let len = ids.len() as int;
    crate::grid::lemma_flatten_members(s.active().columns);
    crate::grid::lemma_flatten_distinct(s.active().columns);
    assert(ids.contains(s.active().active_pane));
    let from = ids.index_of(s.active().active_pane);
    assert(0 <= from < len && ids[from] == s.active().active_pane);
    let there = repeated(s, pane_press(forwards), around, n);
    if n == 0 {
        lemma_way_round(from, forwards, len);
        assert(there.tabs =~= s.tabs.update(
            s.active_tab,
            TabState { active_pane: ids[from], ..s.active() },
        ));
    } else {
        lemma_pane_presses(s, forwards, around, n - 1);
        lemma_place_step(from, forwards, n - 1, len);
        let before = repeated(s, pane_press(forwards), around, n - 1);
        let at = place(from, forwards, n - 1, len);
        assert(before.active().active_pane == ids[at]);
        assert(ids.contains(ids[at]));
        assert(ids.index_of(ids[at]) == at);
        assert(there.tabs =~= s.with_active(
            TabState { active_pane: ids[place(from, forwards, n, len)], ..s.active() },
        ).tabs);
    }
}

/// Moving the focus on and on, or back and back, goes once through every pane of
/// the tab before it is where it began, with everything as it was.
pub proof fn law_pane_presses_go_round(s: AppState, forwards: bool, around: Surroundings)
    requires
        s.wf(),
        s.has_active_tab(),
        s.active().focus_ok(),
    ensures
        repeated(
            s,
            pane_press(forwards),
            around,
            s.active().columns.flatten().len() as int,
        ) == s,
        forall|i: int, j: int|
            0 <= i < j < s.active().columns.flatten().len() ==> #[trigger] pane_after(
                s,
                forwards,
                around,
                i,
            ) != #[trigger] pane_after(s, forwards, around, j),
        forall|id: PaneId| #[trigger]
            s.active().panes.contains_key(id) ==> exists|n: int|
                0 <= n < s.active().columns.flatten().len() && #[trigger] pane_after(
                    s,
                    forwards,
                    around,
                    n,
                ) == id,
{
    let ids = s.active().columns.flatten();
    let len = ids.len() as int;
    let from = ids.index_of(s.active().active_pane);
    lemma_pane_presses(s, forwards, around, len);
    lemma_way_round(from, forwards, len);
    assert(repeated(s, pane_press(forwards), around, len).tabs =~= s.tabs);
    assert forall|n: int| 0 <= n < len implies #[trigger] pane_after(s, forwards, around, n)
        == ids[place(from, forwards, n, len)] && 0 <= place(from, forwards, n, len) < len by {
        lemma_pane_presses(s, forwards, around, n);
        lemma_place_step(from, forwards, n, len);
    }
    assert forall|i: int, j: int| 0 <= i < j < len implies #[trigger] pane_after(
        s,
        forwards,
        around,
        i,
    ) != #[trigger] pane_after(s, forwards, around, j) by {
        assert(place(from, forwards, i, len) != place(from, forwards, j, len));
    }
    assert forall|id: PaneId| #[trigger] s.active().panes.contains_key(id) implies exists|n: int|
        0 <= n < len && #[trigger] pane_after(s, forwards, around, n) == id by {
        assert(ids.contains(id));
        let to = ids.index_of(id);
        assert(ids[to] == id);
        assert(is_reached(from, forwards, len, to));
        let n = choose|n: int| 0 <= n < len && #[trigger] place(from, forwards, n, len) == to;
        assert(pane_after(s, forwards, around, n) == id);
    }
}

/// The message that moves from tab to tab.
pub open spec fn tab_press(forwards: bool) -> Message {
    if forwards {
        Message::CycleTabNext
    } else {
        Message::CycleTabPrev
    }
}

/// The tab that is active after `n` moves.
pub open spec fn tab_after(s: AppState, forwards: bool, around: Surroundings, n: int) -> int {
    repeated(s, tab_press(forwards), around, n).active_tab
}

/// Whether the tab `to` gets its turn before the round is complete.
pub open spec fn reaches_tab(
    s: AppState,
    forwards: bool,
    around: Surroundings,
    to: int,
) -> bool {
    exists|n: int| 0 <= n < s.tabs.len() && #[trigger] tab_after(s, forwards, around, n) == to
}

proof fn lemma_tab_presses(s: AppState, forwards: bool, around: Surroundings, n: int)
    requires
        s.has_active_tab(),
        n >= 0,
    ensures
        repeated(s, tab_press(forwards), around, n).tabs.len() == s.tabs.len(),
        tab_after(s, forwards, around, n) == place(
            s.active_tab,
            forwards,
            n,
            s.tabs.len() as int,
        ),
    decreases n,
{
    let len = s.tabs.len() as int;
    if n == 0 {
        lemma_way_round(s.active_tab, forwards, len);
    } else {
        lemma_tab_presses(s, forwards, around, n - 1);
        lemma_place_step(s.active_tab, forwards, n - 1, len);
        lemma_place_step(s.active_tab, forwards, n, len);
    }
}

/// Moving from tab to tab, on and on or back and back, goes once through every tab
/// before it is at the one where it began.
pub proof fn law_tab_presses_go_round(s: AppState, forwards: bool, around: Surroundings)
    requires
        s.has_active_tab(),
    ensures
        tab_after(s, forwards, around, s.tabs.len() as int) == s.active_tab,
        forall|i: int, j: int|
            0 <= i < j < s.tabs.len() ==> #[trigger] tab_after(s, forwards, around, i)
                != #[trigger] tab_after(s, forwards, around, j),
        forall|to: int| 0 <= to < s.tabs.len() ==> #[trigger] reaches_tab(s, forwards, around, to),
{
    let len = s.tabs.len() as int;
    let from = s.active_tab;
    lemma_way_round(from, forwards, len);
    lemma_tab_presses(s, forwards, around, len);
    assert forall|n: int| 0 <= n < len implies #[trigger] tab_after(s, forwards, around, n)
        == place(from, forwards, n, len) by {
        lemma_tab_presses(s, forwards, around, n);
    }
    assert forall|i: int, j: int| 0 <= i < j < len implies #[trigger] tab_after(
        s,
        forwards,
        around,
        i,
    ) != #[trigger] tab_after(s, forwards, around, j) by {
        assert(place(from, forwards, i, len) != place(from, forwards, j, len));
    }
    assert forall|to: int| 0 <= to < len implies #[trigger] reaches_tab(
        s,
        forwards,
        around,
        to,
    ) by {
        assert(is_reached(from, forwards, len, to));
        let n = choose|n: int| 0 <= n < len && #[trigger] place(from, forwards, n, len) == to;
        assert(tab_after(s, forwards, around, n) == to);
    }
}

} // verus!
