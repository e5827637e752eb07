//! Nothing is asked for without a cause.

use crate::action::ActionView;
use crate::message::Message;
use crate::pane::{PaneId, SplitDirection};
use crate::state::{AppState, Step, Surroundings, RESIZE_GRACE};
use crate::terminal::CommandView;
use vstd::prelude::*;

verus! {

/// Whether an action has its cause in the step that asks for it: a surface goes or
/// comes with the one that is shown, settings are saved as they now are and because of
/// what was entered or of a resize, text is read and written because that was asked
/// for, and terminals are written to because of a key or a paste and scrolled because
/// of the wheel.
pub open spec fn has_cause(action: ActionView, s: AppState, message: Message, step: Step) -> bool {
    match action {
        ActionView::OpenSurface { window, width, height } => {
            &&& s.window_id is None
            &&& step.state.window_id == Some(window)
            &&& width == s.config.window_width
            &&& height == s.config.window_height
        },
        ActionView::DestroySurface(window) => {
            &&& s.window_id == Some(window)
            &&& step.state.window_id is None
        },
        ActionView::SaveConfig(config) => {
            &&& config == step.state.config
            &&& message is UserHostColorInput || message is DirectoryColorInput
        },
        ActionView::ScheduleSave { generation, config } => {
            &&& config == step.state.config
            &&& generation == step.state.resize_save_generation
            &&& message is Resized
        },
        ActionView::SpawnTerminal { pane, .. } => pane == s.next_pane_id,
        ActionView::Terminal(_, CommandView::Write(_)) => message is KeyPressed
            || message is ClipboardPasted,
        ActionView::Terminal(_, CommandView::ScrollDisplay(_)) => message is PaneScroll,
        ActionView::Terminal(_, _) => true,
        ActionView::ReadSelection(_) => message is CopySelection || message is KeyPressed,
        ActionView::ReadClipboard => message is PasteClipboard || message is KeyPressed,
        ActionView::WriteClipboard(_) => message is SelectionRead,
    }
}

/// Whether all actions of a step have their causes.
pub open spec fn all_caused(s: AppState, message: Message, step: Step) -> bool {
    forall|k: int|
        0 <= k < step.actions.len() ==> has_cause(#[trigger] step.actions[k], s, message, step)
}

proof fn lemma_between(
    s: AppState,
    message: Message,
    t: AppState,
    before: Seq<ActionView>,
    after: Seq<ActionView>,
)
    requires
        forall|k: int|
            0 <= k < before.len() ==> has_cause(
                #[trigger] before[k],
                s,
                message,
                t.relaid_between(before, after),
            ),
        forall|k: int|
            0 <= k < after.len() ==> has_cause(
                #[trigger] after[k],
                s,
                message,
                t.relaid_between(before, after),
            ),
    ensures
        all_caused(s, message, t.relaid_between(before, after)),
{
    crate::laws::terminals::lemma_relaid_only_sizes(t);
    let step = t.relaid_between(before, after);
    let laid_out = t.relaid().actions;
    assert forall|k: int| 0 <= k < step.actions.len() implies has_cause(
        #[trigger] step.actions[k],
        s,
        message,
        step,
    ) by {
        if k < before.len() {
            assert(step.actions[k] == before[k]);
        } else if k < before.len() + laid_out.len() {
            assert(step.actions[k] == laid_out[k - before.len()]);
            assert(crate::laws::terminals::only_sizes(laid_out[k - before.len()]));
        } else {
            assert(step.actions[k] == after[k - before.len() - laid_out.len()]);
        }
    }
}

proof fn lemma_close_tab(s: AppState, message: Message, idx: int)
    ensures
        all_caused(s, message, s.close_tab(idx)),
{
    if 0 <= idx < s.tabs.len() && s.tabs.len() > 1 {
        let left = AppState {
            tabs: crate::state::renumbered(s.tabs.remove(idx)),
            active_tab: crate::state::focus_after_close(s.active_tab, idx, s.tabs.len() - 1),
            ..s
        };
        lemma_between(s, message, left, s.tabs[idx].shutdown_actions(), seq![]);
    }
}

proof fn lemma_close_pane(s: AppState, message: Message, id: PaneId)
    ensures
        all_caused(s, message, s.close_pane(id)),
{
    if s.has_pane(id) {
        let i = s.tab_of(id);
        lemma_close_tab(s, message, i);
        lemma_between(
            s,
            message,
            AppState { tabs: s.tabs.update(i, s.tabs[i].without_pane(id)), ..s },
            seq![ActionView::Terminal(id, CommandView::Shutdown)],
            seq![],
        );
    }
}

proof fn lemma_split_pane(s: AppState, message: Message, direction: SplitDirection)
    ensures
        all_caused(s, message, s.split_pane(direction)),
{
    if s.split_opens_pane(direction) {
        let id = s.next_pane_id;
        let size = s.active().split_size(direction, s.window_cells());
        lemma_between(
            s,
            message,
            AppState {
                next_pane_id: (id + 1) as PaneId,
                ..s.with_active(s.active().split(direction, id, size))
            },
            seq![ActionView::SpawnTerminal { pane: id, cols: size.0, rows: size.1 }],
            seq![],
        );
    }
}

proof fn lemma_toggle_popup(s: AppState, message: Message, around: Surroundings)
    ensures
        all_caused(s, message, s.toggle_popup(around)),
{
    if s.window_id is None && s.tabs.len() > 0 {
        let shown = AppState {
            window_id: Some(around.fresh_window),
            surface_opened_at: Some(around.now),
            ..s
        };
        lemma_between(
            s,
            message,
            shown,
            seq![],
            seq![
                ActionView::OpenSurface {
                    window: around.fresh_window,
                    width: s.config.window_width,
                    height: s.config.window_height,
                },
            ],
        );
    }
}

proof fn lemma_select_tab(s: AppState, message: Message, idx: int)
    ensures
        all_caused(s, message, s.select_tab(idx)),
{
    if 0 <= idx < s.tabs.len() {
        let on = AppState { active_tab: idx, ..s };
        lemma_between(s, message, on, seq![], seq![]);
        assert(on.relaid_between(seq![], seq![]).actions =~= on.relaid().actions);
    }
}

/// Whatever happens, everything that is asked for has its cause.
pub proof fn law_nothing_without_a_cause(s: AppState, message: Message, around: Surroundings)
    ensures
        all_caused(s, message, s.step(message, around)),
{
    let next = (s.active_tab + 1) % (s.tabs.len() as int);
    let previous = (s.active_tab - 1) % (s.tabs.len() as int);
    match message {
        Message::TogglePopup => lemma_toggle_popup(s, message, around),
        Message::SplitPane(direction) => lemma_split_pane(s, message, direction),
        Message::ClosePane(id) => lemma_close_pane(s, message, id),
        Message::CloseTab(idx) => lemma_close_tab(s, message, idx as int),
        Message::SelectTab(idx) => lemma_select_tab(s, message, idx as int),
        Message::CycleTabNext => lemma_select_tab(s, message, next),
        Message::CycleTabPrev => lemma_select_tab(s, message, previous),
        Message::Resized(id, width, height) => {
            if !(s.window_id != Some(id) || s.just_opened(around.now, RESIZE_GRACE)) {
                let config = s.config.sized(width, height);
                let generation = (s.resize_save_generation + 1) as u64;
                lemma_between(
                    s,
                    message,
                    AppState { config, resize_save_generation: generation, ..s },
                    seq![],
                    seq![ActionView::ScheduleSave { generation, config }],
                );
            }
        },
        Message::KeyPressed(key, modifiers, text) => match crate::keys::shortcut_of(
            key,
            modifiers,
        ) {
            Some(shortcut) => match shortcut {
                crate::keys::Shortcut::TogglePopup => lemma_toggle_popup(s, message, around),
                crate::keys::Shortcut::SplitHorizontal => lemma_split_pane(
                    s,
                    message,
                    SplitDirection::Horizontal,
                ),
                crate::keys::Shortcut::SplitVertical => lemma_split_pane(
                    s,
                    message,
                    SplitDirection::Vertical,
                ),
                crate::keys::Shortcut::ClosePane => lemma_close_pane(
                    s,
                    message,
                    s.active().active_pane,
                ),
                crate::keys::Shortcut::CloseTab => lemma_close_tab(s, message, s.active_tab),
                crate::keys::Shortcut::NextTab => lemma_select_tab(s, message, next),
                crate::keys::Shortcut::PreviousTab => lemma_select_tab(s, message, previous),
                _ => {},
            },
            None => {},
        },
        _ => {},
    }
}

/// A surface that is no longer the one shown is asked to go, unless it is gone
/// already.
pub proof fn law_hidden_surface_goes(
    s: AppState,
    message: Message,
    around: Surroundings,
    window: u64,
)
    requires
        s.window_id == Some(window),
        s.step(message, around).state.window_id != Some(window),
        !(message is SurfaceClosed),
    ensures
        s.step(message, around).actions.contains(ActionView::DestroySurface(window)),
{
    let step = s.step(message, around);
    let last = step.actions.len() - 1;
    assert(step.actions[last] == ActionView::DestroySurface(window));
}

/// Only a resize and an entered colour change the settings, and only the switches, the
/// popup and what hides it change what they are named after.
pub proof fn law_settings_change_when_told(s: AppState, message: Message, around: Surroundings)
    requires
        !(message is KeyPressed),
    ensures
        ({
            let after = s.step(message, around).state;
            &&& !(message is Resized || message is UserHostColorInput
                || message is DirectoryColorInput) ==> after.config == s.config
            &&& !(message is Resized) ==> after.resize_save_generation == s.resize_save_generation
            &&& !(message is TogglePreferences) ==> after.showing_preferences
                == s.showing_preferences
            &&& !(message is TogglePin) ==> after.pinned == s.pinned
            &&& !(message is TogglePopup) ==> after.surface_opened_at == s.surface_opened_at
            &&& !(message is TogglePopup || message is SurfaceClosed || message is SurfaceUnfocused
                || message is CloseTab || message is ClosePane) ==> after.window_id == s.window_id
            &&& !(message is TogglePopup || message is SplitPane || message is NewTab)
                ==> after.next_pane_id == s.next_pane_id
        }),
{
}

} // verus!
