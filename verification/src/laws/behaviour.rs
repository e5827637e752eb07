//! How messages and shortcuts go together.

use crate::action::ActionView;
use crate::config::Rgb;
use crate::keys::{Key, Modifiers, NamedKey, Shortcut};
use crate::message::{Message, WindowId};
use crate::pane::{PaneId, SplitDirection};
use crate::state::{AppState, Surroundings, RESIZE_GRACE};
use crate::tab::TabState;
use crate::terminal::CommandView;
use vstd::prelude::*;

verus! {

/// The panes of the active tab share the window: columns have equal widths, and
/// the panes of one column have equal heights.
pub proof fn law_panes_share_the_window(s: AppState, c: int, r: int)
    requires
        s.wf(),
        s.has_active_tab(),
        0 <= c < s.active().columns.len(),
        0 <= r < s.active().columns[c].len(),
    ensures
        s.relaid().state.active().panes[s.active().columns[c][r]].last_size == (
            crate::layout::share(s.window_cells().0, s.active().columns.len() as int),
            crate::layout::share(s.window_cells().1, s.active().columns[c].len() as int),
        ),
{
    let id = s.active().columns[c][r];
    assert(crate::grid::at(s.active().columns, c, r, id));
    crate::grid::lemma_location(s.active().columns, c, r, id);
    assert(s.active().panes.contains_key(id));
}

proof fn lemma_flat_map_empty(ids: Seq<PaneId>, f: spec_fn(PaneId) -> Seq<ActionView>)
    requires
        forall|k: int| 0 <= k < ids.len() ==> f(#[trigger] ids[k]).len() == 0,
    ensures
        ids.flat_map(f) =~= seq![],
    decreases ids.len(),
{
    if ids.len() > 0 {
        let front = ids.drop_last();
        assert forall|k: int| 0 <= k < front.len() implies f(#[trigger] front[k]).len() == 0 by {
            assert(front[k] == ids[k]);
        }
        lemma_flat_map_empty(front, f);
        front.lemma_flat_map_push(f, ids.last());
        assert(ids =~= front.push(ids.last()));
        assert(f(ids[ids.len() - 1]).len() == 0);
    }
}

/// Laying out a second time changes nothing and asks for nothing.
pub proof fn law_layout_is_stable(s: AppState)
    requires
        s.wf(),
    ensures
        s.relaid().state.relaid() == s.relaid().state.unchanged(),
{
    if s.has_active_tab() {
        let once = s.relaid().state;
        let tab = once.active();
        let window = s.window_cells();
        let ids = tab.columns.flatten();
        let f = |id: PaneId| tab.pane_layout_actions(window, id);
        crate::grid::lemma_flatten_members(tab.columns);
        assert forall|k: int| 0 <= k < ids.len() implies f(#[trigger] ids[k]).len() == 0 by {
            assert(ids.contains(ids[k]));
            assert(s.active().panes.contains_key(ids[k]));
        }
        lemma_flat_map_empty(ids, f);
        assert(tab.laid_out(window).panes =~= tab.panes);
        assert(once.relaid().state.tabs =~= once.tabs);
        assert(once.relaid() =~= once.unchanged());
    }
}

/// A pane that is split off starts with the size that it keeps: laying out the
/// tab then leaves it alone.
pub proof fn law_split_pane_starts_in_place(
    tab: TabState,
    direction: SplitDirection,
    window: (u16, u16),
    id: PaneId,
)
    requires
        tab.wf(),
        tab.can_split(direction),
        !tab.panes.contains_key(id),
        window.1 >= 1,
    ensures
        tab.split(direction, id, tab.split_size(direction, window)).pane_size(window, id)
            == tab.split_size(direction, window),
{
    let size = tab.split_size(direction, window);
    let after = tab.split(direction, id, size);
    crate::tab::lemma_split_wf(tab, direction, id, size);
    match direction {
        SplitDirection::Horizontal => {
            let n = tab.columns.len() as int;
            assert(crate::grid::at(after.columns, n, 0, id));
            crate::grid::lemma_location(after.columns, n, 0, id);
        },
        SplitDirection::Vertical => {
            let (c, r) = crate::grid::location(tab.columns, tab.active_pane);
            assert(crate::grid::at(tab.columns, c, r, tab.active_pane));
            assert(crate::grid::at(after.columns, c, r + 1, id));
            crate::grid::lemma_location(after.columns, c, r + 1, id);
        },
    }
}

proof fn lemma_close_undoes_split(
    tab: TabState,
    direction: SplitDirection,
    id: PaneId,
    size: (u16, u16),
)
    requires
        tab.wf(),
        tab.can_split(direction),
        !tab.panes.contains_key(id),
    ensures
        crate::grid::without(tab.split(direction, id, size).columns, id) == tab.columns,
        tab.split(direction, id, size).columns.flatten().len() > 1,
{
    let after = tab.split(direction, id, size);
    crate::tab::lemma_split_wf(tab, direction, id, size);
    crate::grid::lemma_single(after.columns);
    match direction {
        SplitDirection::Horizontal => {
            crate::grid::law_close_undoes_horizontal_split(tab.columns, id);
        },
        SplitDirection::Vertical => {
            let (c, r) = crate::grid::location(tab.columns, tab.active_pane);
            assert(crate::grid::at(tab.columns, c, r, tab.active_pane));
            crate::grid::law_close_undoes_vertical_split(tab.columns, c, r, id);
            assert(after.columns[c].len() >= 2);
        },
    }
}

/// Splitting off a pane and closing it again gives back every tab's grid and
/// panes, and the tab that was active.
pub proof fn law_close_undoes_split(s: AppState, direction: SplitDirection)
    requires
        s.wf(),
        s.next_pane_id < u64::MAX,
        s.split_opens_pane(direction),
    ensures
        s.split_pane(direction).state.close_pane(s.next_pane_id).state.active_tab == s.active_tab,
        s.split_pane(direction).state.close_pane(s.next_pane_id).state.tabs.len() == s.tabs.len(),
        forall|i: int|
            0 <= i < s.tabs.len() ==> {
                &&& (#[trigger] s.split_pane(direction).state.close_pane(
                    s.next_pane_id,
                ).state.tabs[i]).columns == s.tabs[i].columns
                &&& s.split_pane(direction).state.close_pane(s.next_pane_id).state.tabs[i].panes.dom()
                    == s.tabs[i].panes.dom()
            },
{
    let around = Surroundings { now: 0, fresh_window: 0, focused_mode: 0 };
    let id = s.next_pane_id;
    let active = s.active_tab;
    let size = s.active().split_size(direction, s.window_cells());
    let split = s.split_pane(direction).state;
    let closed = split.close_pane(id).state;
    crate::laws::order::law_order_is_kept(s, Message::SplitPane(direction), around);
    if s.active().panes.contains_key(id) {
        assert(s.holds(active, id));
    }
    lemma_close_undoes_split(s.active(), direction, id, size);
    assert(split.holds(active, id));
    assert(split.has_pane(id));
    assert(split.holds(split.tab_of(id), id));
    assert(closed.tabs[active].panes.dom() =~= s.active().panes.dom());
    assert forall|i: int| 0 <= i < s.tabs.len() implies (#[trigger] closed.tabs[i]).panes.dom()
        == s.tabs[i].panes.dom() by {
        if i != active {
            assert(closed.tabs[i] == s.tabs[i]);
        }
    }
}

/// One step on and one step back round a circle of `len` places.
proof fn lemma_round_trip(pos: int, len: int)
    requires
        0 <= pos < len,
    ensures
        ((pos + 1) % len - 1) % len == pos,
        ((pos - 1) % len + 1) % len == pos,
{
    if pos + 1 == len {
        vstd::arithmetic::div_mod::lemma_mod_self_0(len);
        vstd::arithmetic::div_mod::lemma_mod_add_multiples_vanish(-1, len);
        vstd::arithmetic::div_mod::lemma_small_mod((len - 1) as nat, len as nat);
    } else {
        vstd::arithmetic::div_mod::lemma_small_mod((pos + 1) as nat, len as nat);
        vstd::arithmetic::div_mod::lemma_small_mod(pos as nat, len as nat);
    }
    if pos == 0 {
        vstd::arithmetic::div_mod::lemma_mod_add_multiples_vanish(-1, len);
        vstd::arithmetic::div_mod::lemma_small_mod((len - 1) as nat, len as nat);
        vstd::arithmetic::div_mod::lemma_mod_self_0(len);
    } else {
        vstd::arithmetic::div_mod::lemma_small_mod((pos - 1) as nat, len as nat);
        vstd::arithmetic::div_mod::lemma_small_mod(pos as nat, len as nat);
    }
}

/// Going to the next tab and back, or to the previous one and back, returns to
/// the tab one came from.
pub proof fn law_tab_cycles_are_undone(s: AppState)
    requires
        s.wf(),
    ensures
        s.cycle_tab(1).state.cycle_tab(-1).state.active_tab == s.active_tab,
        s.cycle_tab(-1).state.cycle_tab(1).state.active_tab == s.active_tab,
{
    if s.tabs.len() > 0 {
        lemma_round_trip(s.active_tab, s.tabs.len() as int);
    }
}

/// Going to the next pane and back, or to the previous one and back, returns to
/// the pane one came from.
pub proof fn law_pane_cycles_are_undone(tab: TabState)
    requires
        tab.wf(),
    ensures
        tab.cycled(1).cycled(-1) == tab,
        tab.cycled(-1).cycled(1) == tab,
{
    let ids = tab.columns.flatten();
    let n = ids.len() as int;
    crate::grid::lemma_flatten_distinct(tab.columns);
    if ids.contains(tab.active_pane) {
        let pos = ids.index_of(tab.active_pane);
        assert(0 <= pos < n && ids[pos] == tab.active_pane);
        lemma_round_trip(pos, n);
        let on = (pos + 1) % n;
        let back = (pos - 1) % n;
        assert(0 <= on < n && 0 <= back < n);
        assert(ids.contains(ids[on]) && ids.contains(ids[back]));
        assert(ids.index_of(ids[on]) == on);
        assert(ids.index_of(ids[back]) == back);
    }
}

/// Closing a tab other than the active one leaves the active one active, with
/// the same grid and the same focused pane.
pub proof fn law_closing_another_tab_keeps_the_active_one(s: AppState, idx: int)
    requires
        s.wf(),
        0 <= idx < s.tabs.len(),
        idx != s.active_tab,
    ensures
        s.close_tab(idx).state.has_active_tab(),
        s.close_tab(idx).state.active().columns == s.active().columns,
        s.close_tab(idx).state.active().active_pane == s.active().active_pane,
{
}

/// Toggling twice leaves preferences and pin as they were.
pub proof fn law_toggles_are_undone(s: AppState, around: Surroundings)
    ensures
        s.step(Message::TogglePreferences, around).state.step(
            Message::TogglePreferences,
            around,
        ).state == s,
        s.step(Message::TogglePin, around).state.step(Message::TogglePin, around).state == s,
{
}

/// Showing the drop-down and hiding it again asks for exactly the surface that
/// was shown to go.
pub proof fn law_popup_toggle_is_undone(s: AppState, around: Surroundings, later: Surroundings)
    requires
        s.window_id is None,
    ensures
        s.toggle_popup(around).state.window_id == Some(around.fresh_window),
        s.toggle_popup(around).state.toggle_popup(later).state.window_id is None,
        s.toggle_popup(around).state.toggle_popup(later).actions == seq![
            ActionView::DestroySurface(around.fresh_window),
        ],
{
}

/// Hiding the drop-down and showing it again keeps the tabs, their panes and the
/// focus.
pub proof fn law_hiding_keeps_the_tabs(s: AppState, around: Surroundings, later: Surroundings)
    requires
        s.window_id is Some,
        s.tabs.len() > 0,
    ensures
        s.toggle_popup(around).state == (AppState { window_id: None, ..s }),
        s.toggle_popup(around).state.toggle_popup(later).state.active_tab == s.active_tab,
        s.toggle_popup(around).state.toggle_popup(later).state.tabs.len() == s.tabs.len(),
        forall|i: int|
            0 <= i < s.tabs.len() ==> {
                let tab = #[trigger] s.toggle_popup(around).state.toggle_popup(later).state.tabs[i];
                &&& tab.columns == s.tabs[i].columns
                &&& tab.active_pane == s.tabs[i].active_pane
                &&& tab.panes.dom() == s.tabs[i].panes.dom()
            },
{
    let shown = s.toggle_popup(around).state.toggle_popup(later).state;
    assert forall|i: int| 0 <= i < s.tabs.len() implies (#[trigger] shown.tabs[i]).panes.dom()
        == s.tabs[i].panes.dom() by {
        assert(shown.tabs[i].panes.dom() =~= s.tabs[i].panes.dom());
    }
}

/// `F12` hides the drop-down while it is shown, whatever modifiers are held.
pub proof fn law_f12_hides(
    s: AppState,
    window: WindowId,
    modifiers: Modifiers,
    text: Option<String>,
    around: Surroundings,
)
    requires
        s.window_id == Some(window),
    ensures
        s.step(
            Message::KeyPressed(Key::Named(NamedKey::F12), modifiers, text),
            around,
        ).actions == seq![ActionView::DestroySurface(window)],
        s.step(
            Message::KeyPressed(Key::Named(NamedKey::F12), modifiers, text),
            around,
        ).state == (AppState { window_id: None, ..s }),
{
}

/// While it is pinned, the drop-down does not go for want of focus.
pub proof fn law_pinned_stays(s: AppState, id: WindowId, around: Surroundings)
    requires
        s.pinned,
    ensures
        s.step(Message::SurfaceUnfocused(id), around) == s.unchanged(),
{
}

/// Whether `action` is of a kind that shortcuts ask for: surfaces and terminals
/// come and go, terminals get their sizes, and text is asked for.
pub open spec fn manages(action: ActionView) -> bool {
    ||| crate::laws::terminals::only_sizes(action)
    ||| action matches ActionView::Terminal(_, CommandView::Shutdown)
    ||| action is SpawnTerminal
    ||| action is OpenSurface
    ||| action is DestroySurface
    ||| action is ReadSelection
    ||| action is ReadClipboard
}

/// Whether all of the actions are of such a kind.
pub open spec fn all_manage(actions: Seq<ActionView>) -> bool {
    forall|k: int| 0 <= k < actions.len() ==> manages(#[trigger] actions[k])
}

proof fn lemma_relaid_between(s: AppState, before: Seq<ActionView>, after: Seq<ActionView>)
    requires
        all_manage(before),
        all_manage(after),
    ensures
        all_manage(s.relaid_between(before, after).actions),
        all_manage(s.relaid().actions),
{
    crate::laws::terminals::lemma_relaid_only_sizes(s);
    let laid_out = s.relaid().actions;
    let all = s.relaid_between(before, after).actions;
    assert forall|k: int| 0 <= k < laid_out.len() implies manages(#[trigger] laid_out[k]) by {
        assert(crate::laws::terminals::only_sizes(laid_out[k]));
    }
    assert forall|k: int| 0 <= k < all.len() implies manages(#[trigger] all[k]) by {
        if k < before.len() {
            assert(all[k] == before[k]);
        } else if k < before.len() + laid_out.len() {
            assert(all[k] == laid_out[k - before.len()]);
        } else {
            assert(all[k] == after[k - before.len() - laid_out.len()]);
        }
    }
}

proof fn lemma_close_tab_manages(s: AppState, idx: int)
    ensures
        all_manage(s.close_tab(idx).actions),
{
    if 0 <= idx < s.tabs.len() {
        let ended = s.tabs[idx].shutdown_actions();
        assert(all_manage(ended));
        let left = AppState {
            tabs: crate::state::renumbered(s.tabs.remove(idx)),
            active_tab: crate::state::focus_after_close(s.active_tab, idx, s.tabs.len() - 1),
            ..s
        };
        lemma_relaid_between(left, ended, seq![]);
    }
}

proof fn lemma_toggle_popup_manages(s: AppState, around: Surroundings)
    ensures
        all_manage(s.toggle_popup(around).actions),
{
    if s.window_id is None && s.tabs.len() > 0 {
        let shown = AppState {
            window_id: Some(around.fresh_window),
            surface_opened_at: Some(around.now),
            ..s
        };
        lemma_relaid_between(
            shown,
            seq![],
            seq![
                ActionView::OpenSurface {
                    window: around.fresh_window,
                    width: s.config.window_width,
                    height: s.config.window_height,
                },
            ],
        );
    }
}

proof fn lemma_split_pane_manages(s: AppState, direction: SplitDirection)
    ensures
        all_manage(s.split_pane(direction).actions),
{
    if s.has_active_tab() && s.active().can_split(direction) {
        let id = s.next_pane_id;
        let size = s.active().split_size(direction, s.window_cells());
        lemma_relaid_between(
            AppState {
                next_pane_id: (id + 1) as PaneId,
                ..s.with_active(s.active().split(direction, id, size))
            },
            seq![ActionView::SpawnTerminal { pane: id, cols: size.0, rows: size.1 }],
            seq![],
        );
    }
}

proof fn lemma_close_pane_manages(s: AppState, id: PaneId)
    ensures
        all_manage(s.close_pane(id).actions),
{
    if s.has_pane(id) {
        let i = s.tab_of(id);
        lemma_close_tab_manages(s, i);
        lemma_relaid_between(
            AppState { tabs: s.tabs.update(i, s.tabs[i].without_pane(id)), ..s },
            seq![ActionView::Terminal(id, CommandView::Shutdown)],
            seq![],
        );
    }
}

/// A shortcut is never also input: it sends nothing to any terminal, and changes
/// and saves no settings.
pub proof fn law_shortcut_is_no_input(s: AppState, shortcut: Shortcut, around: Surroundings)
    ensures
        all_manage(s.shortcut(shortcut, around).actions),
        s.shortcut(shortcut, around).state.config == s.config,
{
    match shortcut {
        Shortcut::TogglePopup => lemma_toggle_popup_manages(s, around),
        Shortcut::SplitHorizontal => lemma_split_pane_manages(s, SplitDirection::Horizontal),
        Shortcut::SplitVertical => lemma_split_pane_manages(s, SplitDirection::Vertical),
        Shortcut::ClosePane => lemma_close_pane_manages(s, s.active().active_pane),
        Shortcut::CloseTab => lemma_close_tab_manages(s, s.active_tab),
        Shortcut::NextTab => {
            let on = AppState { active_tab: (s.active_tab + 1) % (s.tabs.len() as int), ..s };
            lemma_relaid_between(on, seq![], seq![]);
        },
        Shortcut::PreviousTab => {
            let on = AppState { active_tab: (s.active_tab - 1) % (s.tabs.len() as int), ..s };
            lemma_relaid_between(on, seq![], seq![]);
        },
        _ => {},
    }
}

/// The number of resizes never goes down, and a save that is scheduled bears the
/// number of its own resize: once another resize follows, that number is no
/// longer the current one.
pub proof fn law_later_resize_overtakes_save(s: AppState, message: Message, around: Surroundings)
    requires
        s.can_take(message),
    ensures
        s.step(message, around).state.resize_save_generation >= s.resize_save_generation,
        forall|k: int|
            0 <= k < s.step(message, around).actions.len() ==> ((#[trigger] s.step(
                message,
                around,
            ).actions[k]) matches ActionView::ScheduleSave { generation, config } ==> {
                &&& generation == s.resize_save_generation + 1
                &&& generation == s.step(message, around).state.resize_save_generation
                &&& config == s.step(message, around).state.config
            }),
{
    let step = s.step(message, around);
    match message {
        Message::KeyPressed(key, modifiers, text) => {
            match crate::keys::shortcut_of(key, modifiers) {
                Some(shortcut) => law_shortcut_is_no_input(s, shortcut, around),
                None => {},
            }
        },
        Message::TogglePopup => lemma_toggle_popup_manages(s, around),
        Message::SplitPane(direction) => lemma_split_pane_manages(s, direction),
        Message::ClosePane(id) => lemma_close_pane_manages(s, id),
        Message::NewTab => {},
        Message::CloseTab(idx) => lemma_close_tab_manages(s, idx as int),
        Message::SelectTab(idx) => {
            lemma_relaid_between(AppState { active_tab: idx as int, ..s }, seq![], seq![]);
        },
        Message::CycleTabNext => law_shortcut_is_no_input(s, Shortcut::NextTab, around),
        Message::CycleTabPrev => law_shortcut_is_no_input(s, Shortcut::PreviousTab, around),
        Message::Resized(id, width, height) => {
            if !(s.window_id != Some(id) || s.just_opened(around.now, RESIZE_GRACE)) {
                let sized = AppState {
                    config: s.config.sized(width, height),
                    resize_save_generation: (s.resize_save_generation + 1) as u64,
                    ..s
                };
                let laid_out = sized.relaid().actions;
                lemma_relaid_between(sized, seq![], seq![]);
                assert forall|k: int| 0 <= k < step.actions.len() implies manages(
                    #[trigger] step.actions[k],
                ) || k == laid_out.len() by {
                    if k < laid_out.len() {
                        assert(step.actions[k] == laid_out[k]);
                    }
                }
            }
        },
        _ => {},
    }
    assert(message is Resized || forall|k: int|
        0 <= k < step.actions.len() ==> !((#[trigger] step.actions[k]) is ScheduleSave));
}

/// Picking a colour from a chart, which enters it as text, sets just that colour
/// and saves it.
pub proof fn law_picked_color_is_taken_over(s: AppState, color: Rgb)
    ensures
        s.user_host_color_input(crate::preferences::color_text(color)) == s.configured(
            crate::config::AppConfig { user_host_color: color, ..s.config },
        ),
        s.directory_color_input(crate::preferences::color_text(color)) == s.configured(
            crate::config::AppConfig { directory_color: color, ..s.config },
        ),
{
    crate::preferences::law_color_text_reads_back(color);
}

/// `Ctrl` and a letter, without `Shift`, reach the shell as the letter's control
/// code, whatever the applet is doing.
pub proof fn law_control_letters_reach_the_shell(
    s: AppState,
    letter: String,
    modifiers: Modifiers,
    text: Option<String>,
    id: PaneId,
    around: Surroundings,
)
    requires
        letter@.len() == 1,
        crate::keys::is_ascii_letter(letter@[0]),
        modifiers.control,
        !modifiers.shift,
        s.focused() == Some(id),
    ensures
        s.step(Message::KeyPressed(Key::Character(letter), modifiers, text), around)
            == s.asking(
            seq![
                ActionView::Terminal(
                    id,
                    CommandView::Write(
                        seq![((crate::keys::ascii_upper(letter@[0]) as u8) - 0x40) as u8],
                    ),
                ),
            ],
        ),
{
}

/// `Alt` with `f`, `b`, `d` or a full stop reaches the shell as `ESC` and that
/// character in lower case: readline's word movement, word deletion and last
/// argument.
pub proof fn law_alt_movements_reach_the_shell(
    s: AppState,
    letter: String,
    modifiers: Modifiers,
    text: Option<String>,
    id: PaneId,
    around: Surroundings,
)
    requires
        letter@.len() == 1,
        ({
            let lower = crate::keys::ascii_lower(letter@[0]);
            lower == 'f' || lower == 'b' || lower == 'd' || lower == '.'
        }),
        modifiers.alt,
        !modifiers.control,
        s.focused() == Some(id),
    ensures
        s.step(Message::KeyPressed(Key::Character(letter), modifiers, text), around) == s.asking(
            seq![
                ActionView::Terminal(
                    id,
                    CommandView::Write(
                        crate::keys::escaped(crate::keys::ascii_lower(letter@[0])),
                    ),
                ),
            ],
        ),
{
}

/// Without `Ctrl`, the Tab key and the arrow keys reach the shell, which completes
/// words and goes through its history with them.
pub proof fn law_completion_and_history_reach_the_shell(
    s: AppState,
    key: NamedKey,
    modifiers: Modifiers,
    text: Option<String>,
    id: PaneId,
    around: Surroundings,
)
    requires
        !modifiers.control,
        s.focused() == Some(id),
        key is Tab || key is ArrowUp || key is ArrowDown || key is ArrowLeft || key is ArrowRight,
    ensures
        s.step(Message::KeyPressed(Key::Named(key), modifiers, text), around) == s.asking(
            seq![
                ActionView::Terminal(
                    id,
                    CommandView::Write(
                        match key {
                            NamedKey::Tab => seq![0x09],
                            NamedKey::ArrowUp => seq![0x1b, 0x5b, 0x41],
                            NamedKey::ArrowDown => seq![0x1b, 0x5b, 0x42],
                            NamedKey::ArrowRight => seq![0x1b, 0x5b, 0x43],
                            _ => seq![0x1b, 0x5b, 0x44],
                        },
                    ),
                ),
            ],
        ),
{
}

} // verus!
