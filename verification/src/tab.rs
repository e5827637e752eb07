//! A tab: a grid of panes, their terminals, and the pane that has the focus.

use crate::action::{push_commands, Action, ActionView};
use crate::grid::{MAX_GRID_COLS, MAX_GRID_ROWS};
use crate::layout::share_of;
use crate::message::Message;
use crate::pane::PaneId;
use crate::terminal::Terminal;
use crate::view::PaneCell;
use std::collections::HashMap;
use vstd::prelude::*;

verus! {

/// A tab as a mathematical value.
#[verifier::ext_equal]
pub struct TabState {
    /// The number in the tab's title.
    pub number: int,
    /// The terminals of the tab's panes.
    pub panes: Map<PaneId, Terminal>,
    /// The grid of panes, column by column, each from top to bottom.
    pub columns: Seq<Seq<PaneId>>,
    pub active_pane: PaneId,
}

impl TabState {
    /// The grid is in order, and its panes are those that have a terminal.
    pub open spec fn wf(self) -> bool {
        &&& crate::grid::grid_ok(self.columns)
        &&& forall|id: PaneId| #[trigger]
            self.panes.contains_key(id) <==> crate::grid::in_grid(self.columns, id)
    }

    /// The focused pane is one of the tab's own.
    pub open spec fn focus_ok(self) -> bool {
        self.panes.contains_key(self.active_pane)
    }

    /// A tab with one pane, whose terminal starts with `size`.
    pub open spec fn single(number: int, id: PaneId, size: (u16, u16)) -> TabState {
        TabState {
            number,
            panes: Map::empty().insert(id, Terminal { last_size: size }),
            columns: seq![seq![id]],
            active_pane: id,
        }
    }

    /// The size that a pane has in a window of `window_cols` by `window_rows`
    /// cells: columns share the width evenly, and the panes of one column share
    /// the height evenly.
    pub open spec fn pane_size(self, window: (u16, u16), id: PaneId) -> (u16, u16) {
        let (c, r) = crate::grid::location(self.columns, id);
        (
            crate::layout::share(window.0, self.columns.len() as int),
            crate::layout::share(window.1, self.columns[c].len() as int),
        )
    }

    /// The tab with every pane at its size in such a window.
    pub open spec fn laid_out(self, window: (u16, u16)) -> TabState {
        TabState {
            panes: self.panes.map_entries(
                |id: PaneId, terminal: Terminal|
                    Terminal { last_size: self.pane_size(window, id) },
            ),
            ..self
        }
    }

    /// What takes one pane to its size in such a window, if anything.
    pub open spec fn pane_layout_actions(self, window: (u16, u16), id: PaneId) -> Seq<ActionView> {
        let size = self.pane_size(window, id);
        if self.panes[id].last_size == size {
            seq![]
        } else {
            crate::action::for_terminal(id, crate::terminal::resize_commands(size.0, size.1))
        }
    }

    /// What takes every pane to its size in such a window.
    pub open spec fn layout_actions(self, window: (u16, u16)) -> Seq<ActionView> {
        self.columns.flatten().flat_map(|id: PaneId| self.pane_layout_actions(window, id))
    }

    pub open spec fn can_split(self, direction: crate::pane::SplitDirection) -> bool {
        match direction {
            crate::pane::SplitDirection::Horizontal => self.columns.len() < MAX_GRID_COLS,
            crate::pane::SplitDirection::Vertical => {
                &&& crate::grid::in_grid(self.columns, self.active_pane)
                &&& self.columns[crate::grid::location(self.columns, self.active_pane).0].len()
                    < MAX_GRID_ROWS
            },
        }
    }

    /// The size that a pane split off in such a window starts with: that of its
    /// share once it is there.
    pub open spec fn split_size(
        self,
        direction: crate::pane::SplitDirection,
        window: (u16, u16),
    ) -> (u16, u16) {
        match direction {
            crate::pane::SplitDirection::Horizontal => (
                crate::layout::share(window.0, self.columns.len() as int + 1),
                window.1,
            ),
            crate::pane::SplitDirection::Vertical => {
                let (c, r) = crate::grid::location(self.columns, self.active_pane);
                (
                    crate::layout::share(window.0, self.columns.len() as int),
                    crate::layout::share(window.1, self.columns[c].len() as int + 1),
                )
            },
        }
    }

    /// The tab with the new pane `id` split off the focused one, and focused.
    pub open spec fn split(
        self,
        direction: crate::pane::SplitDirection,
        id: PaneId,
        size: (u16, u16),
    ) -> TabState {
        let (c, r) = crate::grid::location(self.columns, self.active_pane);
        TabState {
            panes: self.panes.insert(id, Terminal { last_size: size }),
            columns: match direction {
                crate::pane::SplitDirection::Horizontal => crate::grid::with_column(
                    self.columns,
                    id,
                ),
                crate::pane::SplitDirection::Vertical => crate::grid::with_row(
                    self.columns,
                    c,
                    r,
                    id,
                ),
            },
            active_pane: id,
            ..self
        }
    }

    /// The tab without the pane `id`. Where that had the focus, the pane at the
    /// top left gets it.
    pub open spec fn without_pane(self, id: PaneId) -> TabState {
        let columns = crate::grid::without(self.columns, id);
        TabState {
            panes: self.panes.remove(id),
            columns,
            active_pane: if crate::grid::in_grid(columns, self.active_pane) {
                self.active_pane
            } else {
                columns[0][0]
            },
            ..self
        }
    }

    /// The pane that comes `step` places after the focused one, column by column
    /// and round again; the focused one itself where it is not in the grid.
    pub open spec fn neighbour(self, step: int) -> PaneId {
        let ids = self.columns.flatten();
        if ids.contains(self.active_pane) {
            ids[(ids.index_of(self.active_pane) + step) % (ids.len() as int)]
        } else {
            self.active_pane
        }
    }

    /// The tab with the focus on the pane that comes `step` places on.
    pub open spec fn cycled(self, step: int) -> TabState {
        TabState { active_pane: self.neighbour(step), ..self }
    }

    /// What ends all terminals of the tab.
    pub open spec fn shutdown_actions(self) -> Seq<ActionView> {
        self.columns.flatten().map_values(
            |id: PaneId| ActionView::Terminal(id, crate::terminal::CommandView::Shutdown),
        )
    }
}

/// A tab.
pub struct Tab {
    number: i32,
    panes: HashMap<PaneId, Terminal>,
    columns: Vec<Vec<PaneId>>,
    active_pane: PaneId,
}

/// The columns of a tab, as sequences.
pub open spec fn column_views(columns: Seq<Vec<PaneId>>) -> Seq<Seq<PaneId>> {
    columns.map_values(|c: Vec<PaneId>| c@)
}

impl View for Tab {
    type V = TabState;

    closed spec fn view(&self) -> TabState {
        TabState {
            number: self.number as int,
            panes: self.panes@,
            columns: column_views(self.columns@),
            active_pane: self.active_pane,
        }
    }
}

impl Tab {
    /// A tab with one pane, whose terminal starts with `cols` by `rows` cells.
    pub(crate) fn single(number: i32, id: PaneId, cols: u16, rows: u16) -> (tab: Tab)
        ensures
            tab@ == TabState::single(number as int, id, (cols, rows)),
            tab@.wf(),
            tab@.focus_ok(),
    {
        broadcast use vstd::std_specs::hash::group_hash_axioms;

        let mut panes: HashMap<PaneId, Terminal> = HashMap::new();
        panes.insert(id, Terminal::spawn(cols, rows));
        let columns = vec![vec![id]];
        let tab = Tab { number, panes, columns, active_pane: id };
        proof {
            assert(tab@.columns =~~= seq![seq![id]]);
            lemma_single_wf(number as int, id, (cols, rows));
        }
        tab
    }

    /// The number in the tab's title.
    pub fn number(&self) -> (number: i32)
        ensures
            number == self@.number,
    {
        self.number
    }

    pub(crate) fn set_number(&mut self, number: i32)
        ensures
            final(self)@ == (TabState { number: number as int, ..old(self)@ }),
    {
        self.number = number;
    }

    pub fn active_pane(&self) -> (id: PaneId)
        ensures
            id == self@.active_pane,
    {
        self.active_pane
    }

    pub(crate) fn set_active_pane(&mut self, id: PaneId)
        ensures
            final(self)@ == (TabState { active_pane: id, ..old(self)@ }),
    {
        self.active_pane = id;
    }

    /// The terminal of a pane, if the pane is one of the tab's own.
    pub fn terminal(&self, id: PaneId) -> (terminal: Option<Terminal>)
        ensures
            terminal == (if self@.panes.contains_key(id) {
                Some(self@.panes[id])
            } else {
                None::<Terminal>
            }),
    {
        broadcast use vstd::std_specs::hash::group_hash_axioms;

        match self.panes.get(&id) {
            Some(terminal) => Some(*terminal),
            None => None,
        }
    }

    /// The tab's panes, column by column.
    pub fn pane_ids(&self) -> (ids: Vec<PaneId>)
        ensures
            ids@ == self@.columns.flatten(),
    {
        let ghost columns = self@.columns;
        let mut ids: Vec<PaneId> = Vec::new();
        for c in 0..self.columns.len()
            invariant
                columns == column_views(self.columns@),
                ids@ == columns.take(c as int).flatten(),
        {
            let ghost before = ids@;
            let column = &self.columns[c];
            for r in 0..column.len()
                invariant
                    ids@ =~= before + column@.take(r as int),
            {
                ids.push(column[r]);
            }
            proof {
                assert(column@.take(column@.len() as int) =~= column@);
                columns.take(c as int).lemma_flatten_push(column@);
                assert(columns.take(c + 1) =~= columns.take(c as int).push(column@));
            }
        }
        assert(columns.take(columns.len() as int) =~= columns);
        ids
    }

    /// The column and the row of a pane.
    fn find(&self, id: PaneId) -> (found: Option<(usize, usize)>)
        requires
            self@.wf(),
        ensures
            match found {
                Some((c, r)) => {
                    &&& crate::grid::at(self@.columns, c as int, r as int, id)
                    &&& crate::grid::location(self@.columns, id) == (c as int, r as int)
                },
                None => !crate::grid::in_grid(self@.columns, id),
            },
            found is Some == crate::grid::in_grid(self@.columns, id),
    {
        let ghost columns = self@.columns;
        for c in 0..self.columns.len()
            invariant
                self@.wf(),
                columns == self@.columns,
                columns == column_views(self.columns@),
                forall|d: int, s: int| d < c ==> !(#[trigger] crate::grid::at(columns, d, s, id)),
        {
            let column = &self.columns[c];
            assert(columns[c as int] == column@);
            for r in 0..column.len()
                invariant
                    c < columns.len(),
                    crate::grid::distinct(columns),
                    columns == self@.columns,
                    columns[c as int] == column@,
                    forall|s: int|
                        s < r ==> !(#[trigger] crate::grid::at(columns, c as int, s, id)),
            {
                if column[r] == id {
                    proof {
                        assert(crate::grid::at(columns, c as int, r as int, id));
                        crate::grid::lemma_location(columns, c as int, r as int, id);
                    }
                    return Some((c, r));
                }
            }
        }
        None
    }

    /// The column and the row of the focused pane.
    pub fn find_active_column(&self) -> (found: Option<(usize, usize)>)
        requires
            self@.wf(),
        ensures
            match found {
                Some((c, r)) => {
                    &&& crate::grid::at(self@.columns, c as int, r as int, self@.active_pane)
                    &&& crate::grid::location(self@.columns, self@.active_pane) == (
                        c as int,
                        r as int,
                    )
                },
                None => !crate::grid::in_grid(self@.columns, self@.active_pane),
            },
            found is Some == crate::grid::in_grid(self@.columns, self@.active_pane),
    {
        self.find(self.active_pane)
    }

    pub fn can_split_horizontal(&self) -> (can: bool)
        ensures
            can == self@.can_split(crate::pane::SplitDirection::Horizontal),
    {
        self.columns.len() < MAX_GRID_COLS
    }

    pub fn can_split_vertical(&self) -> (can: bool)
        requires
            self@.wf(),
        ensures
            can == self@.can_split(crate::pane::SplitDirection::Vertical),
    {
        match self.find_active_column() {
            Some((c, _)) => self.columns[c].len() < MAX_GRID_ROWS,
            None => false,
        }
    }

    /// What a pane looks like in the grid: nothing at all where it has no terminal.
    fn render_pane_cell(&self, id: PaneId) -> (cell: Option<PaneCell>)
        ensures
            cell == crate::view::pane_cell(self@, id),
    {
        match self.terminal(id) {
            Some(_) => Some(
                PaneCell { id, is_active: id == self.active_pane, press: Message::SelectPane(id) },
            ),
            None => None,
        }
    }

    /// The tab's panes in their places.
    pub fn render_pane_grid(&self) -> (grid: Vec<Vec<Option<PaneCell>>>)
        ensures
            crate::view::is_pane_grid(grid@, self@),
    {
        let ghost f = |id: PaneId| crate::view::pane_cell(self@, id);
        let mut grid: Vec<Vec<Option<PaneCell>>> = Vec::new();
        for c in 0..self.columns.len()
            invariant
                self@.columns == column_views(self.columns@),
                f == (|id: PaneId| crate::view::pane_cell(self@, id)),
                grid@.len() == c,
                forall|d: int|
                    0 <= d < c ==> (#[trigger] grid@[d])@ == self@.columns[d].map_values(f),
        {
            let column = &self.columns[c];
            let mut cells: Vec<Option<PaneCell>> = Vec::new();
            for r in 0..column.len()
                invariant
                    f == (|id: PaneId| crate::view::pane_cell(self@, id)),
                    cells@ =~= column@.take(r as int).map_values(f),
            {
                cells.push(self.render_pane_cell(column[r]));
            }
            assert(column@.take(column@.len() as int) =~= column@);
            assert(self@.columns[c as int] == column@);
            grid.push(cells);
        }
        grid
    }

    /// The size that a pane split off the focused one would start with, if there
    /// is room for it.
    pub(crate) fn room_for(
        &self,
        direction: crate::pane::SplitDirection,
        window: (u16, u16),
    ) -> (size: Option<(u16, u16)>)
        requires
            self@.wf(),
        ensures
            size == (if self@.can_split(direction) {
                Some(self@.split_size(direction, window))
            } else {
                None::<(u16, u16)>
            }),
    {
        match direction {
            crate::pane::SplitDirection::Horizontal => {
                if !self.can_split_horizontal() {
                    return None;
                }
                Some((share_of(window.0, self.columns.len() + 1), window.1))
            },
            crate::pane::SplitDirection::Vertical => match self.find_active_column() {
                Some((c, _)) => {
                    if !self.can_split_vertical() {
                        return None;
                    }
                    assert(self@.columns[c as int] == self.columns@[c as int]@);
                    Some(
                        (
                            share_of(window.0, self.columns.len()),
                            share_of(window.1, self.columns[c].len() + 1),
                        ),
                    )
                },
                None => None,
            },
        }
    }

    /// Takes every pane to its size in a window of so many columns and rows.
    pub(crate) fn relayout(&mut self, window: (u16, u16)) -> (actions: Vec<Action>)
        requires
            old(self)@.wf(),
        ensures
            final(self)@ == old(self)@.laid_out(window),
            crate::action::action_views(actions@) == old(self)@.layout_actions(window),
            final(self)@.wf(),
    {
        broadcast use vstd::std_specs::hash::group_hash_axioms;

        let ghost start = self@;
        let ghost done = start.laid_out(window);
        let ghost f = |id: PaneId| start.pane_layout_actions(window, id);
        let ids = self.pane_ids();
        proof {
            crate::grid::lemma_flatten_members(start.columns);
            crate::grid::lemma_flatten_distinct(start.columns);
        }
        let cols = share_of(window.0, self.columns.len());
        let mut actions: Vec<Action> = Vec::new();
        assert(crate::action::action_views(actions@) =~= ids@.take(0).flat_map(f));
        for k in 0..ids.len()
            invariant
                start.wf(),
                ids@ == start.columns.flatten(),
                ids@.no_duplicates(),
                forall|id: PaneId| #[trigger]
                    ids@.contains(id) <==> crate::grid::in_grid(start.columns, id),
                done == start.laid_out(window),
                f == (|id: PaneId| start.pane_layout_actions(window, id)),
                cols == crate::layout::share(window.0, start.columns.len() as int),
                self@.number == start.number,
                self@.columns == start.columns,
                self@.active_pane == start.active_pane,
                forall|id: PaneId| #[trigger]
                    self@.panes.contains_key(id) <==> start.panes.contains_key(id),
                forall|j: int|
                    0 <= j < k ==> self@.panes[#[trigger] ids@[j]] == done.panes[ids@[j]],
                forall|j: int|
                    k <= j < ids@.len() ==> self@.panes[#[trigger] ids@[j]]
                        == start.panes[ids@[j]],
                crate::action::action_views(actions@) == ids@.take(k as int).flat_map(f),
        {
            let id = ids[k];
            assert(ids@.contains(ids@[k as int]));
            assert(start.panes.contains_key(id));
            assert(self@.panes.contains_key(id));
            if let Some((c, _)) = self.find(id) {
                assert(self@.columns[c as int] == self.columns@[c as int]@);
                let rows = share_of(window.1, self.columns[c].len());
                let ghost before = self@;
                if let Some(terminal) = self.panes.remove(&id) {
                    let mut terminal = terminal;
                    let commands = terminal.resize_if_changed(cols, rows);
                    let ghost so_far = actions@;
                    push_commands(&mut actions, id, commands);
                    self.panes.insert(id, terminal);
                    proof {
                        assert(crate::action::for_terminal(
                            id,
                            crate::terminal::command_views(commands@),
                        ) =~= f(id));
                        ids@.lemma_flat_map_take_append(f, k as int);
                        assert(self@.panes =~= before.panes.insert(id, done.panes[id]));
                    }
                }
            }
        }
        proof {
            assert(ids@.take(ids@.len() as int) =~= ids@);
            assert(self@.panes =~= done.panes) by {
                assert forall|id: PaneId| #[trigger] self@.panes.contains_key(id) implies self@.panes[id]
                    == done.panes[id] by {
                    assert(ids@.contains(id));
                    let j = ids@.index_of(id);
                    assert(ids@[j] == id);
                }
            }
        }
        actions
    }

    /// Takes one pane to a size of `cols` by `rows` cells.
    pub(crate) fn resize_pane(&mut self, id: PaneId, cols: u16, rows: u16) -> (actions: Vec<Action>)
        requires
            old(self)@.panes.contains_key(id),
        ensures
            final(self)@ == (TabState {
                panes: old(self)@.panes.insert(id, Terminal { last_size: (cols, rows) }),
                ..old(self)@
            }),
            crate::action::action_views(actions@) == (if old(self)@.panes[id].last_size == (
                cols,
                rows,
            ) {
                seq![]
            } else {
                crate::action::for_terminal(id, crate::terminal::resize_commands(cols, rows))
            }),
    {
        broadcast use vstd::std_specs::hash::group_hash_axioms;

        let ghost start = self@;
        let mut actions: Vec<Action> = Vec::new();
        assert(crate::action::action_views(actions@) =~= seq![]);
        if let Some(terminal) = self.panes.remove(&id) {
            let mut terminal = terminal;
            let commands = terminal.resize_if_changed(cols, rows);
            push_commands(&mut actions, id, commands);
            self.panes.insert(id, terminal);
            assert(self@.panes =~= start.panes.insert(id, terminal));
            assert(crate::action::action_views(actions@) =~= crate::action::for_terminal(
                id,
                crate::terminal::command_views(commands@),
            ));
        }
        actions
    }

    /// Splits the new pane `id` off the focused one. Its terminal starts with
    /// `cols` by `rows` cells.
    pub(crate) fn split(
        &mut self,
        direction: crate::pane::SplitDirection,
        id: PaneId,
        cols: u16,
        rows: u16,
    )
        requires
            old(self)@.wf(),
            old(self)@.can_split(direction),
            !old(self)@.panes.contains_key(id),
        ensures
            final(self)@ == old(self)@.split(direction, id, (cols, rows)),
            final(self)@.wf(),
            final(self)@.focus_ok(),
    {
        broadcast use vstd::std_specs::hash::group_hash_axioms;

        let ghost start = self@;
        proof {
            lemma_split_wf(start, direction, id, (cols, rows));
        }
        match direction {
            crate::pane::SplitDirection::Horizontal => {
                self.columns.push(vec![id]);
                assert(self@.columns =~~= crate::grid::with_column(start.columns, id));
            },
            crate::pane::SplitDirection::Vertical => {
                if let Some((c, r)) = self.find_active_column() {
                    assert(start.columns[c as int] == self.columns@[c as int]@);
                    self.columns[c].insert(r + 1, id);
                    assert(self@.columns =~~= crate::grid::with_row(
                        start.columns,
                        c as int,
                        r as int,
                        id,
                    ));
                }
            },
        }
        self.panes.insert(id, Terminal::spawn(cols, rows));
        self.active_pane = id;
    }

    /// Takes the pane `id` out of a tab that has others.
    pub(crate) fn remove_pane(&mut self, id: PaneId) -> (actions: Vec<Action>)
        requires
            old(self)@.wf(),
            old(self)@.panes.contains_key(id),
            old(self)@.columns.flatten().len() > 1,
        ensures
            final(self)@ == old(self)@.without_pane(id),
            crate::action::action_views(actions@) == seq![
                ActionView::Terminal(id, crate::terminal::CommandView::Shutdown),
            ],
            final(self)@.wf(),
    {
        broadcast use vstd::std_specs::hash::group_hash_axioms;

        let ghost start = self@;
        proof {
            crate::grid::lemma_without(start.columns, id);
        }
        let mut actions: Vec<Action> = Vec::new();
        if let Some((c, r)) = self.find(id) {
            assert(start.columns[c as int] == self.columns@[c as int]@);
            self.columns[c].remove(r);
            if self.columns[c].is_empty() {
                self.columns.remove(c);
            }
            assert(self@.columns =~~= crate::grid::without(start.columns, id));
        }
        if let Some(terminal) = self.panes.remove(&id) {
            actions.push(Action::Terminal(id, terminal.shutdown()));
        }
        assert(crate::action::action_views(actions@) =~= seq![
            ActionView::Terminal(id, crate::terminal::CommandView::Shutdown),
        ]);
        assert(self@.panes =~= start.panes.remove(id));
        assert(self@.wf());
        if self.find_active_column().is_none() {
            assert(self@.columns[0] == self.columns@[0]@);
            self.active_pane = self.columns[0][0];
        }
        actions
    }

    /// Moves the focus to the next pane, column by column and round again.
    pub(crate) fn cycle_next(&mut self)
        requires
            old(self)@.wf(),
        ensures
            final(self)@ == old(self)@.cycled(1),
            final(self)@.wf(),
    {
        let ghost start = self@;
        let ids = self.pane_ids();
        let len = ids.len();
        proof {
            crate::grid::lemma_flatten_distinct(self@.columns);
        }
        if let Some(pos) = position(&ids, self.active_pane) {
            self.active_pane = ids[(pos + 1) % len];
        }
        assert(self@.columns == start.columns && self@.panes == start.panes);
    }

    /// Moves the focus to the previous pane, column by column and round again.
    pub(crate) fn cycle_prev(&mut self)
        requires
            old(self)@.wf(),
        ensures
            final(self)@ == old(self)@.cycled(-1),
            final(self)@.wf(),
    {
        let ghost start = self@;
        let ids = self.pane_ids();
        proof {
            crate::grid::lemma_flatten_distinct(self@.columns);
        }
        if let Some(pos) = position(&ids, self.active_pane) {
            proof {
                lemma_wrap_back(pos as int, ids@.len() as int);
            }
            self.active_pane = ids[if pos == 0 {
                ids.len() - 1
            } else {
                pos - 1
            }];
        }
        assert(self@.columns == start.columns && self@.panes == start.panes);
    }

    /// Ends all terminals of the tab.
    pub(crate) fn shutdown(&self) -> (actions: Vec<Action>)
        requires
            self@.wf(),
        ensures
            crate::action::action_views(actions@) == self@.shutdown_actions(),
    {
        broadcast use vstd::std_specs::hash::group_hash_axioms;

        let ids = self.pane_ids();
        proof {
            crate::grid::lemma_flatten_members(self@.columns);
        }
        let mut actions: Vec<Action> = Vec::new();
        for k in 0..ids.len()
            invariant
                self@.wf(),
                ids@ == self@.columns.flatten(),
                forall|id: PaneId| #[trigger]
                    ids@.contains(id) <==> crate::grid::in_grid(self@.columns, id),
                crate::action::action_views(actions@) =~= self@.shutdown_actions().take(k as int),
        {
            assert(ids@.contains(ids@[k as int]));
            assert(self@.panes.contains_key(ids@[k as int]));
            if let Some(terminal) = self.panes.get(&ids[k]) {
                let ghost so_far = actions@;
                actions.push(Action::Terminal(ids[k], terminal.shutdown()));
                assert(crate::action::action_views(actions@) =~= crate::action::action_views(
                    so_far,
                ).push(
                    ActionView::Terminal(ids@[k as int], crate::terminal::CommandView::Shutdown),
                ));
            }
        }
        actions
    }
}

/// Where `id` first stands in `ids`.
fn position(ids: &Vec<PaneId>, id: PaneId) -> (found: Option<usize>)
    requires
        ids@.no_duplicates(),
    ensures
        match found {
            Some(k) => k < ids@.len() && ids@.contains(id) && ids@.index_of(id) == k,
            None => !ids@.contains(id),
        },
{
    for k in 0..ids.len()
        invariant
            ids@.no_duplicates(),
            forall|j: int| 0 <= j < k ==> ids@[j] != id,
    {
        if ids[k] == id {
            assert(ids@[k as int] == id);
            assert(ids@.contains(id));
            return Some(k);
        }
    }
    None
}

/// One place back round a circle of `len` places.
proof fn lemma_wrap_back(pos: int, len: int)
    requires
        0 <= pos < len,
    ensures
        (pos - 1) % len == (if pos == 0 {
            len - 1
        } else {
            pos - 1
        }),
{
    if pos == 0 {
        vstd::arithmetic::div_mod::lemma_mod_add_multiples_vanish(-1, len);
        vstd::arithmetic::div_mod::lemma_small_mod((len - 1) as nat, len as nat);
    } else {
        vstd::arithmetic::div_mod::lemma_small_mod((pos - 1) as nat, len as nat);
    }
}

/// Splitting off a new pane keeps the tab in order and focuses that pane.
pub proof fn lemma_split_wf(
    tab: TabState,
    direction: crate::pane::SplitDirection,
    id: PaneId,
    size: (u16, u16),
)
    requires
        tab.wf(),
        tab.can_split(direction),
        !tab.panes.contains_key(id),
    ensures
        tab.split(direction, id, size).wf(),
        tab.split(direction, id, size).focus_ok(),
{
    match direction {
        crate::pane::SplitDirection::Horizontal => {
            crate::grid::lemma_with_column(tab.columns, id);
        },
        crate::pane::SplitDirection::Vertical => {
            let (c, r) = crate::grid::location(tab.columns, tab.active_pane);
            assert(crate::grid::at(tab.columns, c, r, tab.active_pane));
            crate::grid::lemma_with_row(tab.columns, c, r, id);
        },
    }
}

/// A tab with one pane is in order.
pub proof fn lemma_single_wf(number: int, id: PaneId, size: (u16, u16))
    ensures
        TabState::single(number, id, size).wf(),
        TabState::single(number, id, size).focus_ok(),
        TabState::single(number, id, size).columns.flatten() == seq![id],
{
    let tab = TabState::single(number, id, size);
    tab.columns.lemma_flatten_one_element();
    assert forall|x: PaneId| #[trigger] tab.panes.contains_key(x) <==> crate::grid::in_grid(
        tab.columns,
        x,
    ) by {
        if crate::grid::in_grid(tab.columns, x) {
            let (c, r) = crate::grid::location(tab.columns, x);
            assert(crate::grid::at(tab.columns, c, r, x));
        }
        assert(crate::grid::at(tab.columns, 0, 0, id));
    }
}

} // verus!
