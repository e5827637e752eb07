//! What the applet asks of the program around it.

use crate::config::AppConfig;
use crate::message::WindowId;
use crate::pane::PaneId;
use crate::terminal::{CommandView, TermCommand};
use vstd::prelude::*;

verus! {

/// One thing to do.
#[derive(Debug, Clone, PartialEq, Eq)]
pub enum Action {
    /// Show a surface at the top of the screen.
    OpenSurface { window: WindowId, width: u32, height: u32 },
    DestroySurface(WindowId),
    /// Write the settings to the configuration file.
    SaveConfig(AppConfig),
    /// Write the settings after a moment, if no later resize came in between.
    ScheduleSave { generation: u64, config: AppConfig },
    /// Start a terminal for a new pane.
    SpawnTerminal { pane: PaneId, cols: u16, rows: u16 },
    /// Do something to a pane's terminal.
    Terminal(PaneId, TermCommand),
    /// Report the text that is selected in a pane.
    ReadSelection(PaneId),
    /// Report the clipboard's text.
    ReadClipboard,
    WriteClipboard(String),
}

/// An [`Action`] as a mathematical value.
pub enum ActionView {
    OpenSurface { window: WindowId, width: u32, height: u32 },
    DestroySurface(WindowId),
    SaveConfig(AppConfig),
    ScheduleSave { generation: u64, config: AppConfig },
    SpawnTerminal { pane: PaneId, cols: u16, rows: u16 },
    Terminal(PaneId, CommandView),
    ReadSelection(PaneId),
    ReadClipboard,
    WriteClipboard(Seq<char>),
}

impl View for Action {
    type V = ActionView;

    open spec fn view(&self) -> ActionView {
        match self {
            Action::OpenSurface { window, width, height } => ActionView::OpenSurface {
                window: *window,
                width: *width,
                height: *height,
            },
            Action::DestroySurface(id) => ActionView::DestroySurface(*id),
            Action::SaveConfig(config) => ActionView::SaveConfig(*config),
            Action::ScheduleSave { generation, config } => ActionView::ScheduleSave {
                generation: *generation,
                config: *config,
            },
            Action::SpawnTerminal { pane, cols, rows } => ActionView::SpawnTerminal {
                pane: *pane,
                cols: *cols,
                rows: *rows,
            },
            Action::Terminal(id, command) => ActionView::Terminal(*id, command@),
            Action::ReadSelection(id) => ActionView::ReadSelection(*id),
            Action::ReadClipboard => ActionView::ReadClipboard,
            Action::WriteClipboard(text) => ActionView::WriteClipboard(text@),
        }
    }
}

/// The actions of a list, as mathematical values.
pub open spec fn action_views(actions: Seq<Action>) -> Seq<ActionView> {
    actions.map_values(|a: Action| a@)
}

/// Commands for one pane's terminal, as actions.
pub open spec fn for_terminal(id: PaneId, commands: Seq<CommandView>) -> Seq<ActionView> {
    commands.map_values(|c: CommandView| ActionView::Terminal(id, c))
}

/// Adds commands for one pane's terminal to a list of actions.
pub(crate) fn push_commands(actions: &mut Vec<Action>, id: PaneId, commands: Vec<TermCommand>)
    ensures
        action_views(final(actions)@) == action_views(old(actions)@) + for_terminal(
            id,
            crate::terminal::command_views(commands@),
        ),
{
    let ghost views = crate::terminal::command_views(commands@);
    let ghost before = action_views(actions@);
    assert(for_terminal(id, views.take(0)) =~= seq![]);
    for command in it: commands
        invariant
            it.seq() == commands@,
            views == crate::terminal::command_views(commands@),
            action_views(actions@) =~= before + for_terminal(id, views.take(it.index() as int)),
    {
        let ghost done = it.index() as int;
        let ghost so_far = actions@;
        assert(command@ == views[done]);
        actions.push(Action::Terminal(id, command));
        proof {
            assert(action_views(actions@) =~= action_views(so_far).push(
                ActionView::Terminal(id, views[done]),
            ));
            assert(for_terminal(id, views.take(done + 1)) =~= for_terminal(id, views.take(done)).push(
                ActionView::Terminal(id, views[done]),
            ));
        }
    }
    assert(views.take(views.len() as int) =~= views);
}

} // verus!
