//! What is seen of a terminal, and what the mouse does to it.

use crate::config::Rgb;
use crate::frame::{DrawingView, Glyph, PlacedGlyph, RunView, Scrollback, Scrollbar};
use crate::term_view::{
    AnsiColor, CellPosition, CellSide, CellSnap, GridPoint, NamedColor, PanePosition,
    PointerEvent, PromptColors, RenderCell, SelectionChange, SelectionKind, SelectionRange,
    TermViewState,
};
use vstd::prelude::*;

verus! {

/// A colour that a program gives in full is drawn as it is.
pub proof fn law_full_colors_are_drawn(rgb: Rgb, default: Rgb, prompt: PromptColors)
    ensures
        crate::term_view::drawn_color(AnsiColor::Spec(rgb), default, prompt) == rgb,
{
}

/// The numbered colours are the standard ones, but for green and blue, in whose
/// places are the user's colours. Beyond the sixteenth there is none.
pub proof fn law_numbered_colors(i: u8, default: Rgb, prompt: PromptColors)
    ensures
        i == 2 || i == 10 ==> crate::term_view::drawn_color(AnsiColor::Indexed(i), default, prompt)
            == prompt.user_host,
        i == 4 || i == 12 ==> crate::term_view::drawn_color(AnsiColor::Indexed(i), default, prompt)
            == prompt.directory,
        i >= 16 ==> crate::term_view::drawn_color(AnsiColor::Indexed(i), default, prompt)
            == default,
        crate::term_view::drawn_color(AnsiColor::Indexed(0), default, prompt) == (0u8, 0u8, 0u8),
        crate::term_view::drawn_color(AnsiColor::Indexed(1), default, prompt) == (205u8, 0u8, 0u8),
        crate::term_view::drawn_color(AnsiColor::Indexed(3), default, prompt) == (205u8, 205u8, 0u8),
        crate::term_view::drawn_color(AnsiColor::Indexed(5), default, prompt) == (205u8, 0u8, 205u8),
        crate::term_view::drawn_color(AnsiColor::Indexed(6), default, prompt) == (0u8, 205u8, 205u8),
        crate::term_view::drawn_color(AnsiColor::Indexed(7), default, prompt) == (229u8, 229u8, 229u8),
        crate::term_view::drawn_color(AnsiColor::Indexed(8), default, prompt) == (127u8, 127u8, 127u8),
        crate::term_view::drawn_color(AnsiColor::Indexed(9), default, prompt) == (255u8, 0u8, 0u8),
        crate::term_view::drawn_color(AnsiColor::Indexed(11), default, prompt) == (255u8, 255u8, 0u8),
        crate::term_view::drawn_color(AnsiColor::Indexed(13), default, prompt) == (255u8, 0u8, 255u8),
        crate::term_view::drawn_color(AnsiColor::Indexed(14), default, prompt) == (0u8, 255u8, 255u8),
        crate::term_view::drawn_color(AnsiColor::Indexed(15), default, prompt) == (255u8, 255u8, 255u8),
{
}

/// The named colours are the standard ones, dim ones like normal ones, but for green
/// and blue, in whose places are the user's colours. Names that stand for no colour
/// are drawn in the default.
pub proof fn law_named_colors(default: Rgb, prompt: PromptColors)
    ensures
        crate::term_view::drawn_color(AnsiColor::Named(NamedColor::Black), default, prompt) == (0u8, 0u8, 0u8),
        crate::term_view::drawn_color(AnsiColor::Named(NamedColor::DimBlack), default, prompt) == (0u8, 0u8, 0u8),
        crate::term_view::drawn_color(AnsiColor::Named(NamedColor::BrightBlack), default, prompt) == (127u8, 127u8, 127u8),
        crate::term_view::drawn_color(AnsiColor::Named(NamedColor::Red), default, prompt) == (205u8, 0u8, 0u8),
        crate::term_view::drawn_color(AnsiColor::Named(NamedColor::DimRed), default, prompt) == (205u8, 0u8, 0u8),
        crate::term_view::drawn_color(AnsiColor::Named(NamedColor::BrightRed), default, prompt) == (255u8, 0u8, 0u8),
        crate::term_view::drawn_color(AnsiColor::Named(NamedColor::Yellow), default, prompt) == (205u8, 205u8, 0u8),
        crate::term_view::drawn_color(AnsiColor::Named(NamedColor::DimYellow), default, prompt) == (205u8, 205u8, 0u8),
        crate::term_view::drawn_color(AnsiColor::Named(NamedColor::BrightYellow), default, prompt) == (255u8, 255u8, 0u8),
        crate::term_view::drawn_color(AnsiColor::Named(NamedColor::Magenta), default, prompt) == (205u8, 0u8, 205u8),
        crate::term_view::drawn_color(AnsiColor::Named(NamedColor::DimMagenta), default, prompt) == (205u8, 0u8, 205u8),
        crate::term_view::drawn_color(AnsiColor::Named(NamedColor::BrightMagenta), default, prompt) == (255u8, 0u8, 255u8),
        crate::term_view::drawn_color(AnsiColor::Named(NamedColor::Cyan), default, prompt) == (0u8, 205u8, 205u8),
        crate::term_view::drawn_color(AnsiColor::Named(NamedColor::DimCyan), default, prompt) == (0u8, 205u8, 205u8),
        crate::term_view::drawn_color(AnsiColor::Named(NamedColor::BrightCyan), default, prompt) == (0u8, 255u8, 255u8),
        crate::term_view::drawn_color(AnsiColor::Named(NamedColor::White), default, prompt) == (229u8, 229u8, 229u8),
        crate::term_view::drawn_color(AnsiColor::Named(NamedColor::DimWhite), default, prompt) == (229u8, 229u8, 229u8),
        crate::term_view::drawn_color(AnsiColor::Named(NamedColor::BrightWhite), default, prompt) == (255u8, 255u8, 255u8),
        crate::term_view::drawn_color(AnsiColor::Named(NamedColor::Green), default, prompt) == prompt.user_host,
        crate::term_view::drawn_color(AnsiColor::Named(NamedColor::DimGreen), default, prompt) == prompt.user_host,
        crate::term_view::drawn_color(AnsiColor::Named(NamedColor::BrightGreen), default, prompt) == prompt.user_host,
        crate::term_view::drawn_color(AnsiColor::Named(NamedColor::Blue), default, prompt) == prompt.directory,
        crate::term_view::drawn_color(AnsiColor::Named(NamedColor::DimBlue), default, prompt) == prompt.directory,
        crate::term_view::drawn_color(AnsiColor::Named(NamedColor::BrightBlue), default, prompt) == prompt.directory,
        crate::term_view::drawn_color(AnsiColor::Named(NamedColor::Foreground), default, prompt) == default,
        crate::term_view::drawn_color(AnsiColor::Named(NamedColor::Background), default, prompt) == default,
        crate::term_view::drawn_color(AnsiColor::Named(NamedColor::Cursor), default, prompt) == default,
        crate::term_view::drawn_color(AnsiColor::Named(NamedColor::BrightForeground), default, prompt) == default,
        crate::term_view::drawn_color(AnsiColor::Named(NamedColor::DimForeground), default, prompt) == default,
{
}

/// The colours of a cell: that of its text, white where it has none, and that behind
/// it, dark grey where it has none.
pub open spec fn own_colors(cell: RenderCell, prompt: PromptColors) -> (Rgb, Rgb) {
    (
        crate::term_view::drawn_color(cell.fg, (255, 255, 255), prompt),
        crate::term_view::drawn_color(cell.bg, (30, 30, 30), prompt),
    )
}

/// A cell that is neither inverse nor selected is drawn in its own colours, and one
/// that is either, or both, with them swapped. It keeps its place and its character,
/// and is the cursor's where it is in the cursor's place.
pub proof fn law_cells_are_drawn_in_their_colors(
    cell: RenderCell,
    cursor: GridPoint,
    selection: Option<SelectionRange>,
    prompt: PromptColors,
)
    ensures
        ({
            let snap = crate::term_view::snapped(cell, cursor, selection, prompt);
            let (text, behind) = own_colors(cell, prompt);
            let selected = match selection {
                Some(range) => crate::term_view::is_selected(range, cell.point),
                None => false,
            };
            &&& !selected && cell.flags % 2 == 0 ==> snap.fg == text && snap.bg == behind
            &&& selected || cell.flags % 2 == 1 ==> snap.fg == behind && snap.bg == text
            &&& snap.line == cell.point.line
            &&& snap.col == cell.point.column
            &&& snap.c == cell.c
            &&& snap.is_cursor <==> cell.point.line == cursor.line && cell.point.column
                == cursor.column
        }),
{
    let flags = cell.flags;
    assert((flags & 1 == 1) <==> flags % 2 == 1) by (bit_vector);
}

/// What a program draws behind its text is seen: a background given in full, or red,
/// or any other, is the background drawn, or the text colour where the cell is
/// swapped.
pub proof fn law_backgrounds_are_seen(
    cell: RenderCell,
    rgb: Rgb,
    cursor: GridPoint,
    selection: Option<SelectionRange>,
    prompt: PromptColors,
)
    requires
        cell.bg == AnsiColor::Spec(rgb) || (cell.bg == AnsiColor::Named(NamedColor::Red) && rgb == (
            205u8,
            0u8,
            0u8,
        )),
    ensures
        ({
            let snap = crate::term_view::snapped(cell, cursor, selection, prompt);
            let swapped = cell.flags % 2 == 1 || (selection matches Some(range)
                && crate::term_view::is_selected(range, cell.point));
            &&& !swapped ==> snap.bg == rgb
            &&& swapped ==> snap.fg == rgb
        }),
{
    law_cells_are_drawn_in_their_colors(cell, cursor, selection, prompt);
}

/// A selection takes in what lies from its start to its end in reading order; a
/// rectangle, what lies in its lines and its columns.
pub proof fn law_selection_is_in_reading_order(range: SelectionRange, point: GridPoint)
    ensures
        !range.is_block ==> (crate::term_view::is_selected(range, point) <==> {
            &&& range.start.line < point.line || (range.start.line == point.line
                && range.start.column <= point.column)
            &&& point.line < range.end.line || (point.line == range.end.line && point.column
                <= range.end.column)
        }),
        range.is_block ==> (crate::term_view::is_selected(range, point) <==> {
            &&& range.start.line <= point.line <= range.end.line
            &&& range.start.column <= point.column <= range.end.column
        }),
{
}

/// The glyphs of a frame are, in order, those of the cells whose characters are no
/// spaces and whose columns fit, each in its cell's column, row and text colour.
pub proof fn law_frame_shows_the_text(cells: Seq<CellSnap>, display_offset: int, max_cols: int)
    ensures
        crate::frame::drawings_of(
            crate::frame::runs_of(cells, display_offset),
            max_cols,
        ).flat_map(|d: DrawingView| crate::frame::drawn_glyphs(d)) == cells.filter(
            |cell: CellSnap| cell.c != ' ' && cell.col < max_cols,
        ).map_values(
            |cell: CellSnap|
                PlacedGlyph {
                    glyph: Glyph { col: cell.col, c: cell.c },
                    row: cell.line + display_offset,
                    fg: cell.fg,
                },
        ),
{
    crate::frame::law_glyphs_are_the_visible_cells(cells, display_offset, max_cols);
    let p = |cell: CellSnap| crate::frame::is_drawn(cell, max_cols);
    let q = |cell: CellSnap| cell.c != ' ' && cell.col < max_cols;
    let f = |cell: CellSnap| crate::frame::cell_glyph(cell, display_offset);
    let g = |cell: CellSnap|
        PlacedGlyph {
            glyph: Glyph { col: cell.col, c: cell.c },
            row: cell.line + display_offset,
            fg: cell.fg,
        };
    assert(p =~= q);
    assert(f =~= g);
}

/// A drawing's glyphs keep its row and its text colour.
pub proof fn law_placed_glyphs(drawing: DrawingView, k: int)
    requires
        0 <= k < drawing.glyphs.len(),
    ensures
        crate::frame::drawn_glyphs(drawing).len() == drawing.glyphs.len(),
        crate::frame::drawn_glyphs(drawing)[k].glyph == drawing.glyphs[k],
        crate::frame::drawn_glyphs(drawing)[k].row == drawing.row,
        crate::frame::drawn_glyphs(drawing)[k].fg == drawing.fg,
{
}

/// A place on the screen, and the colour that it is filled with, if any.
pub struct Filled {
    pub col: int,
    pub row: int,
    pub color: Option<Rgb>,
}

/// The places that a drawing covers, each with the drawing's background.
pub open spec fn filled_by(drawing: DrawingView) -> Seq<Filled> {
    Seq::new(
        drawing.cols as nat,
        |k: int|
            Filled { col: drawing.start_col + k, row: drawing.row, color: drawing.background },
    )
}

/// What is filled for a cell: nothing where it has the colour behind everything.
pub open spec fn filled_for(cell: CellSnap, display_offset: int) -> Filled {
    Filled {
        col: cell.col as int,
        row: cell.line + display_offset,
        color: if cell.bg == (30u8, 30u8, 30u8) {
            None
        } else {
            Some(cell.bg)
        },
    }
}

/// The places that are covered by what is drawn of a run.
spec fn run_filled(run: RunView, max_cols: int) -> Seq<Filled> {
    if run.start_col >= max_cols {
        seq![]
    } else {
        filled_by(crate::frame::drawing_of(run, max_cols))
    }
}

proof fn lemma_filled_by_run(runs: Seq<RunView>, max_cols: int)
    ensures
        crate::frame::drawings_of(runs, max_cols).flat_map(|d: DrawingView| filled_by(d))
            == runs.flat_map(|run: RunView| run_filled(run, max_cols)),
    decreases runs.len(),
{
    let f = |d: DrawingView| filled_by(d);
    let g = |run: RunView| run_filled(run, max_cols);
    let drawings = crate::frame::drawings_of(runs, max_cols);
    if runs.len() == 0 {
        assert(drawings.map_values(f) =~= seq![]);
        assert(runs.map_values(g) =~= seq![]);
    } else {
        let front = runs.drop_last();
        lemma_filled_by_run(front, max_cols);
        front.lemma_flat_map_push(g, runs.last());
        assert(runs =~= front.push(runs.last()));
        if runs.last().start_col >= max_cols {
            assert(front.flat_map(g) + g(runs.last()) =~= front.flat_map(g));
        } else {
            crate::frame::drawings_of(front, max_cols).lemma_flat_map_push(
                f,
                crate::frame::drawing_of(runs.last(), max_cols),
            );
        }
    }
}

proof fn lemma_longer_run_filled(run: RunView, cell: CellSnap, display_offset: int, max_cols: int)
    requires
        run.text.len() > 0,
        run.start_col + run.text.len() == cell.col,
        run.row == cell.line + display_offset,
        run.bg == cell.bg,
    ensures
        run_filled(crate::frame::extended(run, cell.c), max_cols) == run_filled(run, max_cols) + (
        if cell.col < max_cols {
            seq![filled_for(cell, display_offset)]
        } else {
            seq![]
        }),
{
    assert(run_filled(crate::frame::extended(run, cell.c), max_cols) =~= run_filled(run, max_cols)
        + (if cell.col < max_cols {
        seq![filled_for(cell, display_offset)]
    } else {
        seq![]
    }));
}

/// The places that a frame's drawings cover are, in order, those of the cells whose
/// columns fit, and each is filled with its cell's background, unless that is the
/// colour behind everything.
pub proof fn law_frame_shows_the_backgrounds(
    cells: Seq<CellSnap>,
    display_offset: int,
    max_cols: int,
)
    ensures
        crate::frame::drawings_of(
            crate::frame::runs_of(cells, display_offset),
            max_cols,
        ).flat_map(|d: DrawingView| filled_by(d)) == cells.filter(
            |cell: CellSnap| cell.col < max_cols,
        ).map_values(|cell: CellSnap| filled_for(cell, display_offset)),
{
    lemma_filled_by_run(crate::frame::runs_of(cells, display_offset), max_cols);
    lemma_runs_fill_the_cells(cells, display_offset, max_cols);
}

proof fn lemma_runs_fill_the_cells(cells: Seq<CellSnap>, display_offset: int, max_cols: int)
    ensures
        crate::frame::runs_of(cells, display_offset).flat_map(
            |run: RunView| run_filled(run, max_cols),
        ) == cells.filter(|cell: CellSnap| cell.col < max_cols).map_values(
            |cell: CellSnap| filled_for(cell, display_offset),
        ),
    decreases cells.len(),
{
    reveal(Seq::filter);
    let g = |run: RunView| run_filled(run, max_cols);
    let p = |cell: CellSnap| cell.col < max_cols;
    let h = |cell: CellSnap| filled_for(cell, display_offset);
    let runs = crate::frame::runs_of(cells, display_offset);
    if cells.len() == 0 {
        assert(runs.map_values(g) =~= seq![]);
        assert(cells.filter(p).map_values(h) =~= seq![]);
    } else {
        let front = cells.drop_last();
        let cell = cells.last();
        let before = crate::frame::runs_of(front, display_offset);
        lemma_runs_fill_the_cells(front, display_offset, max_cols);
        let added = if cell.col < max_cols {
            seq![filled_for(cell, display_offset)]
        } else {
            seq![]
        };
        assert(cells.filter(p).map_values(h) =~= front.filter(p).map_values(h) + added);
        if cells.len() >= 2 && crate::frame::continues(cells[cells.len() - 2], cell) {
            crate::frame::lemma_last_run(front, display_offset);
            assert(front.last() == cells[cells.len() - 2]);
            let kept = before.drop_last();
            let run = before.last();
            let longer = crate::frame::extended(run, cell.c);
            lemma_longer_run_filled(run, cell, display_offset, max_cols);
            kept.lemma_flat_map_push(g, run);
            kept.lemma_flat_map_push(g, longer);
            assert(before =~= kept.push(run));
            assert(g(longer) =~= g(run) + added);
            assert(kept.flat_map(g) + (g(run) + added) =~= (kept.flat_map(g) + g(run)) + added);
        } else {
            let fresh = crate::frame::run_of(cell, display_offset);
            assert(run_filled(fresh, max_cols) =~= added);
            before.lemma_flat_map_push(g, fresh);
        }
    }
}

/// The cursor is drawn in its cell, if there is one among those that are seen and its
/// column is seen at least in part.
pub proof fn law_cursor_is_drawn_in_its_cell(
    cells: Seq<CellSnap>,
    display_offset: int,
    visible_cols: usize,
    k: int,
)
    requires
        0 <= k < cells.len(),
        cells[k].is_cursor,
        forall|i: int| k < i < cells.len() ==> !(#[trigger] cells[i]).is_cursor,
    ensures
        cells[k].col < visible_cols ==> crate::frame::cursor_place(
            cells,
            display_offset,
            visible_cols,
        ) == Some((cells[k].col, (cells[k].line + display_offset) as i32)),
        cells[k].col >= visible_cols ==> crate::frame::cursor_place(
            cells,
            display_offset,
            visible_cols,
        ) is None,
    decreases cells.len(),
{
    if k < cells.len() - 1 {
        assert(!cells[cells.len() - 1].is_cursor);
        law_cursor_is_drawn_in_its_cell(cells.drop_last(), display_offset, visible_cols, k);
    }
}

/// Where the cursor's cell is not seen, no cursor is drawn.
pub proof fn law_unseen_cursor_is_not_drawn(
    cells: Seq<CellSnap>,
    display_offset: int,
    visible_cols: usize,
)
    requires
        forall|i: int| 0 <= i < cells.len() ==> !(#[trigger] cells[i]).is_cursor,
    ensures
        crate::frame::cursor_place(cells, display_offset, visible_cols) is None,
    decreases cells.len(),
{
    if cells.len() > 0 {
        assert(!cells[cells.len() - 1].is_cursor);
        assert forall|i: int| 0 <= i < cells.drop_last().len() implies !(
        #[trigger] cells.drop_last()[i]).is_cursor by {
            assert(!cells[i].is_cursor);
        }
        law_unseen_cursor_is_not_drawn(cells.drop_last(), display_offset, visible_cols);
    }
}

/// There is a scroll bar where there are more lines than the screen has, and it shows
/// how many there are, how far back the view is, and how far back it can go.
pub proof fn law_scroll_bar_shows_the_history(scrollback: Scrollback)
    ensures
        scrollback.total_lines <= scrollback.screen_lines ==> crate::frame::scrollbar_of(
            scrollback,
        ) is None,
        scrollback.total_lines > scrollback.screen_lines ==> (crate::frame::scrollbar_of(scrollback)
            matches Some(bar) && bar.total_lines == scrollback.total_lines && bar.screen_lines
            == scrollback.screen_lines && bar.display_offset == scrollback.display_offset
            && bar.screen_lines + bar.max_offset == bar.total_lines),
{
}

/// Each cell of a frame is the cell of the terminal in the same place of the list, in
/// its drawn colours.
pub proof fn law_frame_takes_every_cell(
    cells: Seq<RenderCell>,
    cursor: GridPoint,
    selection: Option<SelectionRange>,
    prompt: PromptColors,
)
    ensures
        crate::frame::snaps(cells, cursor, selection, prompt).len() == cells.len(),
        forall|k: int|
            0 <= k < cells.len() ==> (#[trigger] crate::frame::snaps(
                cells,
                cursor,
                selection,
                prompt,
            )[k]) == crate::term_view::snapped(cells[k], cursor, selection, prompt),
{
}

/// A scroll offset counts lines one for one, as far as lines have numbers.
pub proof fn law_offset_counts_lines(display_offset: usize)
    requires
        display_offset <= 0x7fff_ffff,
    ensures
        crate::term_view::line_offset(display_offset) == display_offset,
{
}

/// Cells are nine pixels wide and eighteen high, and lie side by side from the pane's
/// top left: a place is in the cell whose edges it lies between. Left of the pane it
/// counts as the first column, and above it rows are counted upwards.
pub proof fn law_cells_are_side_by_side(position: PanePosition)
    ensures
        ({
            let cell = crate::term_view::cell_under(position);
            &&& position.x < 0 ==> cell.col == 0
            &&& position.x >= 0 ==> 9 * cell.col <= position.x && (cell.col < usize::MAX
                ==> position.x < 9 * (cell.col + 1))
            &&& position.y >= 0 ==> 18 * cell.row <= position.y && (cell.row < i32::MAX
                ==> position.y < 18 * (cell.row + 1))
            &&& position.y >= 0 ==> cell.row >= 0
            &&& position.y < 0 ==> position.y <= 18 * cell.row && (cell.row > i32::MIN ==> 18 * (
            cell.row - 1) < position.y)
            &&& position.y < 0 ==> cell.row <= 0
        }),
{
}

/// A cell's corner is as many cells from the pane's top left as its numbers say.
pub proof fn law_corners(cell: CellPosition)
    ensures
        crate::term_view::corner_of(cell).x == 9 * cell.col,
        crate::term_view::corner_of(cell).y == 18 * cell.row,
{
}

/// The point that is seen in a cell is in that cell's column, as many lines further
/// up as the view is scrolled back, where such a line has a number.
pub proof fn law_points_are_scrolled(position: PanePosition, display_offset: usize)
    requires
        display_offset <= 0x7fff_ffff,
    ensures
        ({
            let cell = crate::term_view::cell_under(position);
            let line = cell.row - display_offset;
            &&& crate::term_view::has_point(position, display_offset) <==> line >= i32::MIN
            &&& line >= i32::MIN ==> crate::term_view::point_at(position, display_offset) == (
            GridPoint { line: line as i32, column: cell.col })
        }),
{
}

/// Pressing the left button in a pane starts a selection there, at the left edge of
/// the cell, and a drag; pressing it elsewhere does nothing.
pub proof fn law_press_starts_a_selection(
    state: TermViewState,
    position: PanePosition,
    display_offset: usize,
)
    ensures
        state.change(PointerEvent::LeftPressed(Some(position)), display_offset) == Some(
            SelectionChange::Start {
                kind: SelectionKind::Simple,
                point: crate::term_view::point_at(position, display_offset),
                side: CellSide::Left,
            },
        ),
        state.drags_after(PointerEvent::LeftPressed(Some(position))),
        state.change(PointerEvent::LeftPressed(None), display_offset) is None,
        state.drags_after(PointerEvent::LeftPressed(None)) == state.dragging,
{
}

/// Moving the mouse extends the selection to the left edge of the cell that it is in,
/// while a drag lasts; without a drag it does nothing.
pub proof fn law_drag_extends_the_selection(
    state: TermViewState,
    position: PanePosition,
    display_offset: usize,
)
    ensures
        state.dragging ==> state.change(PointerEvent::Moved(Some(position)), display_offset)
            == Some(
            SelectionChange::Extend {
                point: crate::term_view::point_at(position, display_offset),
                side: CellSide::Left,
            },
        ),
        !state.dragging ==> state.change(
            PointerEvent::Moved(Some(position)),
            display_offset,
        ) is None,
        state.change(PointerEvent::Moved(None), display_offset) is None,
        state.drags_after(PointerEvent::Moved(Some(position))) == state.dragging,
        state.drags_after(PointerEvent::Moved(None)) == state.dragging,
{
}

/// Letting the button go ends the drag and leaves the selection; nothing else matters.
pub proof fn law_release_ends_the_drag(state: TermViewState, display_offset: usize)
    ensures
        !state.drags_after(PointerEvent::LeftReleased),
        state.change(PointerEvent::LeftReleased, display_offset) is None,
        state.drags_after(PointerEvent::Other) == state.dragging,
        state.change(PointerEvent::Other, display_offset) is None,
{
}

} // verus!
