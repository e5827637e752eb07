//! One frame of a terminal: neighbouring cells of one colour are gathered into
//! runs, and each run is clipped to the pane and turned into a background and
//! glyphs, each at its own place in the grid.

use crate::config::Rgb;
use crate::term_view::{
    snap_cell, CellSnap, GridPoint, PromptColors, RenderCell, SelectionRange, DEFAULT_BACKGROUND,
};
use vstd::prelude::*;

verus! {

/// Neighbouring cells of one colour.
#[derive(Debug)]
pub struct GlyphRun {
    pub start_col: usize,
    /// The row on the screen.
    pub row: i32,
    pub fg: Rgb,
    pub bg: Rgb,
    pub text: Vec<char>,
}

/// A [`GlyphRun`] as a mathematical value.
#[verifier::ext_equal]
pub struct RunView {
    pub start_col: int,
    pub row: int,
    pub fg: Rgb,
    pub bg: Rgb,
    pub text: Seq<char>,
}

impl View for GlyphRun {
    type V = RunView;

    open spec fn view(&self) -> RunView {
        RunView {
            start_col: self.start_col as int,
            row: self.row as int,
            fg: self.fg,
            bg: self.bg,
            text: self.text@,
        }
    }
}

/// A character at its place.
#[derive(Debug, Clone, Copy, PartialEq, Eq, Structural)]
pub struct Glyph {
    pub col: usize,
    pub c: char,
}

/// What is drawn of a run.
#[derive(Debug)]
pub struct RunDrawing {
    pub start_col: usize,
    pub row: i32,
    /// How many columns the run covers.
    pub cols: usize,
    /// The colour to fill them with, where that is not the colour behind
    /// everything.
    pub background: Option<Rgb>,
    pub fg: Rgb,
    /// The characters, without the spaces.
    pub glyphs: Vec<Glyph>,
}

/// A [`RunDrawing`] as a mathematical value.
#[verifier::ext_equal]
pub struct DrawingView {
    pub start_col: int,
    pub row: int,
    pub cols: int,
    pub background: Option<Rgb>,
    pub fg: Rgb,
    pub glyphs: Seq<Glyph>,
}

impl View for RunDrawing {
    type V = DrawingView;

    open spec fn view(&self) -> DrawingView {
        DrawingView {
            start_col: self.start_col as int,
            row: self.row as int,
            cols: self.cols as int,
            background: self.background,
            fg: self.fg,
            glyphs: self.glyphs@,
        }
    }
}

/// The pane that is drawn on.
#[derive(Debug, Clone, Copy, PartialEq, Eq, Structural)]
pub struct Viewport {
    /// How many columns fit in the pane's width entirely.
    pub whole_cols: usize,
    /// How many columns are seen at least in part.
    pub visible_cols: usize,
}

/// How far a terminal is scrolled.
#[derive(Debug, Clone, Copy, PartialEq, Eq, Structural)]
pub struct Scrollback {
    /// All lines, with those above the screen.
    pub total_lines: usize,
    pub screen_lines: usize,
    /// How many lines the view is scrolled back.
    pub display_offset: usize,
}

/// The scroll bar: which part of the track its thumb takes, and how far it is
/// from the bottom.
#[derive(Debug, Clone, Copy, PartialEq, Eq, Structural)]
pub struct Scrollbar {
    pub screen_lines: usize,
    pub total_lines: usize,
    pub display_offset: usize,
    /// The farthest that the view can be scrolled back.
    pub max_offset: usize,
}

/// A frame.
#[derive(Debug)]
pub struct FrameLayout {
    /// The colour that the whole pane is filled with first.
    pub background: Rgb,
    /// What is drawn of the text, in order.
    pub runs: Vec<RunDrawing>,
    /// The column and the row of the cursor, which is drawn over the text.
    pub cursor: Option<(usize, i32)>,
    pub scrollbar: Option<Scrollbar>,
}

/// Whether `next` continues the run that `cell` is in: it is the next cell of the
/// same line, in the same colours.
pub open spec fn continues(cell: CellSnap, next: CellSnap) -> bool {
    &&& next.line == cell.line
    &&& next.col == cell.col + 1
    &&& next.fg == cell.fg
    &&& next.bg == cell.bg
}

/// The run that starts with a cell.
pub open spec fn run_of(cell: CellSnap, display_offset: int) -> RunView {
    RunView {
        start_col: cell.col as int,
        row: cell.line + display_offset,
        fg: cell.fg,
        bg: cell.bg,
        text: seq![cell.c],
    }
}

/// A run with one more character.
pub open spec fn extended(run: RunView, c: char) -> RunView {
    RunView { text: run.text.push(c), ..run }
}

/// The runs of a sequence of cells.
pub open spec fn runs_of(cells: Seq<CellSnap>, display_offset: int) -> Seq<RunView>
    decreases cells.len(),
{
    if cells.len() == 0 {
        seq![]
    } else {
        let runs = runs_of(cells.drop_last(), display_offset);
        if cells.len() >= 2 && continues(cells[cells.len() - 2], cells.last()) {
            runs.drop_last().push(extended(runs.last(), cells.last().c))
        } else {
            runs.push(run_of(cells.last(), display_offset))
        }
    }
}

/// The glyph for `c` in the column `col`.
pub open spec fn glyph(col: int, c: char) -> Glyph {
    Glyph { col: col as usize, c }
}

/// The glyphs of a text that starts in the column `col`: its characters, without
/// the spaces.
pub open spec fn glyphs_of(text: Seq<char>, col: int) -> Seq<Glyph>
    decreases text.len(),
{
    if text.len() == 0 {
        seq![]
    } else {
        let glyphs = glyphs_of(text.drop_last(), col);
        if text.last() == ' ' {
            glyphs
        } else {
            glyphs.push(glyph(col + text.len() - 1, text.last()))
        }
    }
}

/// The part of a run's text that fits in `max_cols` columns.
pub open spec fn clipped(run: RunView, max_cols: int) -> Seq<char> {
    if run.start_col + run.text.len() <= max_cols {
        run.text
    } else {
        run.text.take(max_cols - run.start_col)
    }
}

/// What is drawn of a run where `max_cols` columns fit.
pub open spec fn drawing_of(run: RunView, max_cols: int) -> DrawingView {
    let text = clipped(run, max_cols);
    DrawingView {
        start_col: run.start_col,
        row: run.row,
        cols: text.len() as int,
        background: if run.bg == DEFAULT_BACKGROUND {
            None
        } else {
            Some(run.bg)
        },
        fg: run.fg,
        glyphs: glyphs_of(text, run.start_col),
    }
}

/// What is drawn of runs, in order: nothing of those that start too far right.
pub open spec fn drawings_of(runs: Seq<RunView>, max_cols: int) -> Seq<DrawingView>
    decreases runs.len(),
{
    if runs.len() == 0 {
        seq![]
    } else {
        let drawings = drawings_of(runs.drop_last(), max_cols);
        if runs.last().start_col >= max_cols {
            drawings
        } else {
            drawings.push(drawing_of(runs.last(), max_cols))
        }
    }
}

/// The cell that the cursor is on: the last of those that are marked.
pub open spec fn cursor_cell(cells: Seq<CellSnap>) -> Option<CellSnap>
    decreases cells.len(),
{
    if cells.len() == 0 {
        None
    } else if cells.last().is_cursor {
        Some(cells.last())
    } else {
        cursor_cell(cells.drop_last())
    }
}

/// Where the cursor is drawn: nowhere where none of it can be seen.
pub open spec fn cursor_place(
    cells: Seq<CellSnap>,
    display_offset: int,
    visible_cols: usize,
) -> Option<(usize, i32)> {
    match cursor_cell(cells) {
        Some(cell) => if cell.col < visible_cols {
            Some((cell.col, (cell.line + display_offset) as i32))
        } else {
            None
        },
        None => None,
    }
}

/// The scroll bar, where there is anything to scroll to.
pub open spec fn scrollbar_of(scrollback: Scrollback) -> Option<Scrollbar> {
    if scrollback.total_lines > scrollback.screen_lines {
        Some(
            Scrollbar {
                screen_lines: scrollback.screen_lines,
                total_lines: scrollback.total_lines,
                display_offset: scrollback.display_offset,
                max_offset: (scrollback.total_lines - scrollback.screen_lines) as usize,
            },
        )
    } else {
        None
    }
}

/// The cells as they are drawn.
pub open spec fn snaps(
    cells: Seq<RenderCell>,
    cursor: GridPoint,
    selection: Option<SelectionRange>,
    prompt: PromptColors,
) -> Seq<CellSnap> {
    cells.map_values(
        |cell: RenderCell| crate::term_view::snapped(cell, cursor, selection, prompt),
    )
}

/// Whether the cells' rows on the screen have numbers.
pub open spec fn rows_fit(cells: Seq<RenderCell>, display_offset: usize) -> bool {
    forall|k: int|
        0 <= k < cells.len() ==> i32::MIN <= (#[trigger] cells[k]).point.line
            + crate::term_view::line_offset(display_offset) <= i32::MAX
}

/// The drawings of a list, as mathematical values.
pub open spec fn drawing_views(drawings: Seq<RunDrawing>) -> Seq<DrawingView> {
    drawings.map_values(|d: RunDrawing| d@)
}

fn same_color(a: Rgb, b: Rgb) -> (same: bool)
    ensures
        same == (a == b),
{
    a.0 == b.0 && a.1 == b.1 && a.2 == b.2
}

/// Clips a run to the columns that fit and places its characters. Nothing is
/// drawn of a run that starts behind them.
pub fn flush_run(run: &GlyphRun, max_cols: usize) -> (drawing: Option<RunDrawing>)
    ensures
        match drawing {
            Some(drawing) => run.start_col < max_cols && drawing@ == drawing_of(
                run@,
                max_cols as int,
            ),
            None => run.start_col >= max_cols,
        },
{
    if run.start_col >= max_cols {
        return None;
    }
    let available: usize = max_cols - run.start_col;
    let cols: usize = if run.text.len() <= available {
        run.text.len()
    } else {
        available
    };
    let ghost text = clipped(run@, max_cols as int);
    assert(text =~= run.text@.take(cols as int));
    let mut glyphs: Vec<Glyph> = Vec::new();
    for i in 0..cols
        invariant
            cols <= run.text@.len(),
            run.start_col + cols <= max_cols,
            glyphs@ == glyphs_of(run.text@.take(i as int), run.start_col as int),
    {
        assert(run.text@.take(i + 1).drop_last() =~= run.text@.take(i as int));
        if run.text[i] != ' ' {
            glyphs.push(Glyph { col: run.start_col + i, c: run.text[i] });
        }
    }
    Some(
        RunDrawing {
            start_col: run.start_col,
            row: run.row,
            cols,
            background: if same_color(run.bg, DEFAULT_BACKGROUND) {
                None
            } else {
                Some(run.bg)
            },
            fg: run.fg,
            glyphs,
        },
    )
}

/// Whether `next` continues the run that `cell` is in.
fn is_continued(cell: &CellSnap, next: &CellSnap) -> (continued: bool)
    ensures
        continued == continues(*cell, *next),
{
    next.line == cell.line && next.col > 0 && next.col - 1 == cell.col && same_color(
        next.fg,
        cell.fg,
    ) && same_color(next.bg, cell.bg)
}

/// Adds what is drawn of a run to a frame.
fn push_run(drawings: &mut Vec<RunDrawing>, run: &GlyphRun, max_cols: usize)
    ensures
        drawing_views(final(drawings)@) == (if run.start_col >= max_cols {
            drawing_views(old(drawings)@)
        } else {
            drawing_views(old(drawings)@).push(drawing_of(run@, max_cols as int))
        }),
{
    if let Some(drawing) = flush_run(run, max_cols) {
        drawings.push(drawing);
        assert(drawing_views(drawings@) =~= drawing_views(old(drawings)@).push(
            drawing_of(run@, max_cols as int),
        ));
    }
}

/// Lays out a frame of the cells that can be seen.
pub fn draw_frame(
    cells: &Vec<RenderCell>,
    cursor: GridPoint,
    selection: Option<SelectionRange>,
    prompt: PromptColors,
    scrollback: Scrollback,
    viewport: Viewport,
) -> (frame: FrameLayout)
    requires
        rows_fit(cells@, scrollback.display_offset),
    ensures
        frame.background == DEFAULT_BACKGROUND,
        drawing_views(frame.runs@) == drawings_of(
            runs_of(
                snaps(cells@, cursor, selection, prompt),
                crate::term_view::line_offset(scrollback.display_offset),
            ),
            viewport.whole_cols as int,
        ),
        frame.cursor == cursor_place(
            snaps(cells@, cursor, selection, prompt),
            crate::term_view::line_offset(scrollback.display_offset),
            viewport.visible_cols,
        ),
        frame.scrollbar == scrollbar_of(scrollback),
{
    let offset: i32 = scrollback.display_offset as i32;
    let ghost all = snaps(cells@, cursor, selection, prompt);
    let ghost max_cols = viewport.whole_cols as int;
    let mut drawings: Vec<RunDrawing> = Vec::new();
    let mut open: Option<(GlyphRun, CellSnap)> = None;
    let mut cursor_at: Option<(usize, i32)> = None;
    assert(drawing_views(drawings@) =~= seq![]);
    for k in 0..cells.len()
        invariant
            rows_fit(cells@, scrollback.display_offset),
            offset == crate::term_view::line_offset(scrollback.display_offset),
            all == snaps(cells@, cursor, selection, prompt),
            max_cols == viewport.whole_cols,
            k == 0 <==> open is None,
            match open {
                None => drawings@.len() == 0,
                Some((run, last)) => {
                    let runs = runs_of(all.take(k as int), offset as int);
                    &&& k > 0
                    &&& last == all[k - 1]
                    &&& runs.len() > 0
                    &&& run@ == runs.last()
                    &&& drawing_views(drawings@) == drawings_of(runs.drop_last(), max_cols)
                },
            },
            cursor_at == (match cursor_cell(all.take(k as int)) {
                Some(cell) => Some((cell.col, (cell.line + offset) as i32)),
                None => None::<(usize, i32)>,
            }),
    {
        let cell = snap_cell(cells[k], cursor, selection, prompt);
        assert(cell == all[k as int]);
        assert(i32::MIN <= cells@[k as int].point.line + offset <= i32::MAX);
        let ghost seen = all.take(k as int);
        let ghost now = all.take(k + 1);
        assert(now.drop_last() =~= seen);
        assert(now.last() == cell);
        let ghost runs = runs_of(seen, offset as int);
        let row: i32 = cell.line + offset;
        if cell.is_cursor {
            cursor_at = Some((cell.col, row));
        }
        let mut text: Vec<char> = Vec::new();
        text.push(cell.c);
        let fresh = GlyphRun { start_col: cell.col, row, fg: cell.fg, bg: cell.bg, text };
        assert(fresh@ =~= run_of(cell, offset as int));
        match open {
            None => {
                open = Some((fresh, cell));
                assert(runs_of(now, offset as int).drop_last() =~= seq![]);
            },
            Some((run, last)) => {
                assert(now[now.len() - 2] == last);
                if is_continued(&last, &cell) {
                    let mut run = run;
                    run.text.push(cell.c);
                    assert(run@ =~= extended(runs.last(), cell.c));
                    assert(runs_of(now, offset as int).drop_last() =~= runs.drop_last());
                    open = Some((run, cell));
                } else {
                    push_run(&mut drawings, &run, viewport.whole_cols);
                    assert(runs_of(now, offset as int).drop_last() =~= runs);
                    open = Some((fresh, cell));
                }
            },
        }
    }
    proof {
        assert(all.take(all.len() as int) =~= all);
    }
    if let Some((run, _)) = open {
        push_run(&mut drawings, &run, viewport.whole_cols);
    }
    let shown = match cursor_at {
        Some((col, row)) => {
            if col < viewport.visible_cols {
                Some((col, row))
            } else {
                None
            }
        },
        None => None,
    };
    let scrollbar = if scrollback.total_lines > scrollback.screen_lines {
        Some(
            Scrollbar {
                screen_lines: scrollback.screen_lines,
                total_lines: scrollback.total_lines,
                display_offset: scrollback.display_offset,
                max_offset: scrollback.total_lines - scrollback.screen_lines,
            },
        )
    } else {
        None
    };
    FrameLayout { background: DEFAULT_BACKGROUND, runs: drawings, cursor: shown, scrollbar }
}

/// A character in its place on the screen, with its colours.
#[verifier::ext_equal]
pub struct PlacedChar {
    pub col: int,
    pub row: int,
    pub fg: Rgb,
    pub bg: Rgb,
    pub c: char,
}

/// The character `c` in the column `col` of a run's row.
pub open spec fn placed_in(run: RunView, col: int, c: char) -> PlacedChar {
    PlacedChar { col, row: run.row, fg: run.fg, bg: run.bg, c }
}

/// The characters of a run in their places.
pub open spec fn placed(run: RunView) -> Seq<PlacedChar> {
    Seq::new(run.text.len(), |j: int| placed_in(run, run.start_col + j, run.text[j]))
}

/// The characters of cells in their places.
pub open spec fn placed_cells(cells: Seq<CellSnap>, display_offset: int) -> Seq<PlacedChar> {
    cells.map_values(
        |cell: CellSnap|
            PlacedChar {
                col: cell.col as int,
                row: cell.line + display_offset,
                fg: cell.fg,
                bg: cell.bg,
                c: cell.c,
            },
    )
}

/// The last run ends with the last cell.
pub(crate) proof fn lemma_last_run(cells: Seq<CellSnap>, display_offset: int)
    requires
        cells.len() > 0,
    ensures
        runs_of(cells, display_offset).len() > 0,
        ({
            let run = runs_of(cells, display_offset).last();
            &&& run.text.len() > 0
            &&& run.start_col + run.text.len() - 1 == cells.last().col
            &&& run.row == cells.last().line + display_offset
            &&& run.fg == cells.last().fg
            &&& run.bg == cells.last().bg
        }),
    decreases cells.len(),
{
    if cells.len() >= 2 {
        lemma_last_run(cells.drop_last(), display_offset);
        assert(cells.drop_last().last() == cells[cells.len() - 2]);
    }
}

/// Gathering cells into runs changes nothing of what is drawn where: run by run,
/// the characters are those of the cells, in order, each in its cell's place and
/// colours.
pub proof fn law_runs_are_the_cells(cells: Seq<CellSnap>, display_offset: int)
    ensures
        runs_of(cells, display_offset).flat_map(|run: RunView| placed(run)) == placed_cells(
            cells,
            display_offset,
        ),
    decreases cells.len(),
{
    let f = |run: RunView| placed(run);
    let runs = runs_of(cells, display_offset);
    if cells.len() == 0 {
        assert(runs.map_values(f) =~= seq![]);
        assert(placed_cells(cells, display_offset) =~= seq![]);
    } else {
        let front = cells.drop_last();
        let cell = cells.last();
        let before = runs_of(front, display_offset);
        law_runs_are_the_cells(front, display_offset);
        let last = PlacedChar {
            col: cell.col as int,
            row: cell.line + display_offset,
            fg: cell.fg,
            bg: cell.bg,
            c: cell.c,
        };
        assert(placed_cells(cells, display_offset) =~= placed_cells(front, display_offset).push(
            last,
        ));
        if cells.len() >= 2 && continues(cells[cells.len() - 2], cell) {
            lemma_last_run(front, display_offset);
            assert(front.last() == cells[cells.len() - 2]);
            let kept = before.drop_last();
            let run = before.last();
            let longer = extended(run, cell.c);
            kept.lemma_flat_map_push(f, run);
            kept.lemma_flat_map_push(f, longer);
            assert(before =~= kept.push(run));
            assert(runs == kept.push(longer));
            assert(placed(longer).len() == placed(run).len() + 1);
            assert forall|j: int| 0 <= j < placed(longer).len() implies placed(longer)[j]
                == placed(run).push(last)[j] by {
                if j < placed(run).len() {
                    assert(longer.text[j] == run.text[j]);
                } else {
                    assert(longer.text[j] == cell.c);
                }
            }
            assert(placed(longer) =~= placed(run).push(last));
            assert(kept.flat_map(f) + f(run).push(last) =~= (kept.flat_map(f) + f(run)).push(last));
        } else {
            let run = run_of(cell, display_offset);
            before.lemma_flat_map_push(f, run);
            assert(placed(run)[0] == last);
            assert(placed(run) =~= seq![last]);
            assert(before.flat_map(f) + seq![last] =~= before.flat_map(f).push(last));
        }
    }
}

/// Whether the run `next` starts where `run` ends, in the same row and colours.
pub open spec fn joins(run: RunView, next: RunView) -> bool {
    &&& next.row == run.row
    &&& next.start_col == run.start_col + run.text.len()
    &&& next.fg == run.fg
    &&& next.bg == run.bg
}

/// Runs are as long as they can be: none could be joined to the one before.
pub proof fn law_runs_are_maximal(cells: Seq<CellSnap>, display_offset: int, i: int)
    requires
        0 <= i < runs_of(cells, display_offset).len() - 1,
    ensures
        !joins(runs_of(cells, display_offset)[i], runs_of(cells, display_offset)[i + 1]),
    decreases cells.len(),
{
    let runs = runs_of(cells, display_offset);
    let front = cells.drop_last();
    let before = runs_of(front, display_offset);
    if cells.len() >= 2 {
        lemma_last_run(front, display_offset);
        assert(front.last() == cells[cells.len() - 2]);
    }
    if cells.len() >= 2 && continues(cells[cells.len() - 2], cells.last()) {
        law_runs_are_maximal(front, display_offset, i);
    } else if i < runs.len() - 2 {
        law_runs_are_maximal(front, display_offset, i);
    }
}

proof fn lemma_glyphs(text: Seq<char>, col: int)
    requires
        0 <= col,
        col + text.len() <= usize::MAX,
    ensures
        forall|g: Glyph| #[trigger]
            glyphs_of(text, col).contains(g) <==> {
                &&& col <= g.col < col + text.len()
                &&& text[g.col - col] == g.c
                &&& g.c != ' '
            },
    decreases text.len(),
{
    if text.len() > 0 {
        let front = text.drop_last();
        let before = glyphs_of(front, col);
        let now = glyphs_of(text, col);
        lemma_glyphs(front, col);
        let last = glyph(col + text.len() - 1, text.last());
        assert(now == (if text.last() == ' ' {
            before
        } else {
            before.push(last)
        }));
        assert forall|g: Glyph| #[trigger] now.contains(g) <==> {
            &&& col <= g.col < col + text.len()
            &&& text[g.col - col] == g.c
            &&& g.c != ' '
        } by {
            if now.contains(g) {
                let k = now.index_of(g);
                assert(now[k] == g);
                if k < before.len() {
                    assert(before[k] == g);
                    assert(before.contains(g));
                } else {
                    assert(g == last);
                }
            }
            if col <= g.col < col + text.len() && text[g.col - col] == g.c && g.c != ' ' {
                if g.col < col + front.len() {
                    assert(front[g.col - col] == g.c);
                    assert(before.contains(g));
                    let k = before.index_of(g);
                    assert(now[k] == g);
                } else {
                    assert(g == last);
                    assert(now[now.len() - 1] == g);
                }
            }
        }
    } else {
        assert forall|g: Glyph| !(#[trigger] glyphs_of(text, col).contains(g)) by {}
    }
}

/// What is drawn of a run stays within the columns that fit, and shows exactly
/// those of its characters that are in one of them and no space.
pub proof fn law_drawing_is_the_visible_text(run: RunView, max_cols: int)
    requires
        0 <= run.start_col < max_cols <= usize::MAX,
    ensures
        run.start_col + drawing_of(run, max_cols).cols <= max_cols,
        forall|g: Glyph| #[trigger]
            drawing_of(run, max_cols).glyphs.contains(g) <==> {
                &&& run.start_col <= g.col < run.start_col + run.text.len()
                &&& g.col < max_cols
                &&& run.text[g.col - run.start_col] == g.c
                &&& g.c != ' '
            },
{
    lemma_glyphs(clipped(run, max_cols), run.start_col);
}

/// A glyph on the screen, with its colour.
#[verifier::ext_equal]
pub struct PlacedGlyph {
    pub glyph: Glyph,
    pub row: int,
    pub fg: Rgb,
}

/// The glyph `g` of a drawing, in its place.
pub open spec fn placed_glyph(row: int, fg: Rgb, g: Glyph) -> PlacedGlyph {
    PlacedGlyph { glyph: g, row, fg }
}

/// The glyphs of a drawing in their places.
pub open spec fn drawn_glyphs(drawing: DrawingView) -> Seq<PlacedGlyph> {
    drawing.glyphs.map_values(|g: Glyph| placed_glyph(drawing.row, drawing.fg, g))
}

/// The glyph of a cell in its place.
pub open spec fn cell_glyph(cell: CellSnap, display_offset: int) -> PlacedGlyph {
    placed_glyph(cell.line + display_offset, cell.fg, glyph(cell.col as int, cell.c))
}

/// Whether a cell's character is drawn: it is no space, and its column fits.
pub open spec fn is_drawn(cell: CellSnap, max_cols: int) -> bool {
    cell.c != ' ' && cell.col < max_cols
}

/// What is drawn of one run, in its place.
spec fn run_glyphs(run: RunView, max_cols: int) -> Seq<PlacedGlyph> {
    if run.start_col >= max_cols {
        seq![]
    } else {
        drawn_glyphs(drawing_of(run, max_cols))
    }
}

proof fn lemma_drawings_by_run(runs: Seq<RunView>, max_cols: int)
    ensures
        drawings_of(runs, max_cols).flat_map(|d: DrawingView| drawn_glyphs(d)) == runs.flat_map(
            |run: RunView| run_glyphs(run, max_cols),
        ),
    decreases runs.len(),
{
    let f = |d: DrawingView| drawn_glyphs(d);
    let g = |run: RunView| run_glyphs(run, max_cols);
    if runs.len() == 0 {
        assert(drawings_of(runs, max_cols).map_values(f) =~= seq![]);
        assert(runs.map_values(g) =~= seq![]);
    } else {
        let front = runs.drop_last();
        lemma_drawings_by_run(front, max_cols);
        front.lemma_flat_map_push(g, runs.last());
        assert(runs =~= front.push(runs.last()));
        if runs.last().start_col >= max_cols {
            assert(front.flat_map(g) + g(runs.last()) =~= front.flat_map(g));
        } else {
            drawings_of(front, max_cols).lemma_flat_map_push(f, drawing_of(runs.last(), max_cols));
        }
    }
}

/// One more character in a run adds one glyph, if that is drawn.
proof fn lemma_longer_run(run: RunView, c: char, max_cols: int)
    requires
        run.text.len() > 0,
    ensures
        run_glyphs(extended(run, c), max_cols) == run_glyphs(run, max_cols) + (if c != ' '
            && run.start_col + run.text.len() < max_cols {
            seq![placed_glyph(run.row, run.fg, glyph(run.start_col + run.text.len(), c))]
        } else {
            seq![]
        }),
{
    let longer = extended(run, c);
    if run.start_col < max_cols {
        let text = clipped(longer, max_cols);
        if run.start_col + run.text.len() < max_cols {
            assert(text.drop_last() =~= run.text);
            assert(text.last() == c);
        } else {
            assert(text =~= clipped(run, max_cols));
        }
    }
    assert(run_glyphs(longer, max_cols) =~= run_glyphs(run, max_cols) + (if c != ' '
        && run.start_col + run.text.len() < max_cols {
        seq![placed_glyph(run.row, run.fg, glyph(run.start_col + run.text.len(), c))]
    } else {
        seq![]
    }));
}

/// A run of one character is that character's glyph, if that is drawn.
proof fn lemma_fresh_run(cell: CellSnap, display_offset: int, max_cols: int)
    ensures
        run_glyphs(run_of(cell, display_offset), max_cols) == (if is_drawn(cell, max_cols) {
            seq![cell_glyph(cell, display_offset)]
        } else {
            seq![]
        }),
{
    let run = run_of(cell, display_offset);
    if run.start_col < max_cols {
        let text = clipped(run, max_cols);
        let col = run.start_col;
        assert(text =~= seq![cell.c]);
        assert(glyphs_of(text.drop_last(), col) =~= seq![]);
        assert(glyphs_of(text, col) =~= (if cell.c == ' ' {
            seq![]
        } else {
            seq![glyph(col, cell.c)]
        }));
    }
    assert(run_glyphs(run, max_cols) =~= (if is_drawn(cell, max_cols) {
        seq![cell_glyph(cell, display_offset)]
    } else {
        seq![]
    }));
}

/// The glyphs of a frame are, in order, those of the cells whose characters are no
/// spaces and whose columns fit, each in its cell's place and colour.
pub proof fn law_glyphs_are_the_visible_cells(
    cells: Seq<CellSnap>,
    display_offset: int,
    max_cols: int,
)
    ensures
        drawings_of(runs_of(cells, display_offset), max_cols).flat_map(
            |d: DrawingView| drawn_glyphs(d),
        ) == cells.filter(|cell: CellSnap| is_drawn(cell, max_cols)).map_values(
            |cell: CellSnap| cell_glyph(cell, display_offset),
        ),
{
    lemma_drawings_by_run(runs_of(cells, display_offset), max_cols);
    lemma_runs_draw_the_cells(cells, display_offset, max_cols);
}

proof fn lemma_runs_draw_the_cells(cells: Seq<CellSnap>, display_offset: int, max_cols: int)
    ensures
        runs_of(cells, display_offset).flat_map(|run: RunView| run_glyphs(run, max_cols))
            == cells.filter(|cell: CellSnap| is_drawn(cell, max_cols)).map_values(
            |cell: CellSnap| cell_glyph(cell, display_offset),
        ),
    decreases cells.len(),
{
    reveal(Seq::filter);
    let g = |run: RunView| run_glyphs(run, max_cols);
    let p = |cell: CellSnap| is_drawn(cell, max_cols);
    let h = |cell: CellSnap| cell_glyph(cell, display_offset);
    let runs = runs_of(cells, display_offset);
    if cells.len() == 0 {
        assert(runs.map_values(g) =~= seq![]);
        assert(cells.filter(p).map_values(h) =~= seq![]);
    } else {
        let front = cells.drop_last();
        let cell = cells.last();
        let before = runs_of(front, display_offset);
        lemma_runs_draw_the_cells(front, display_offset, max_cols);
        let added = if is_drawn(cell, max_cols) {
            seq![cell_glyph(cell, display_offset)]
        } else {
            seq![]
        };
        assert(cells.filter(p).map_values(h) =~= front.filter(p).map_values(h) + added);
        if cells.len() >= 2 && continues(cells[cells.len() - 2], cell) {
            lemma_last_run(front, display_offset);
            assert(front.last() == cells[cells.len() - 2]);
            let kept = before.drop_last();
            let run = before.last();
            lemma_longer_run(run, cell.c, max_cols);
            kept.lemma_flat_map_push(g, run);
            kept.lemma_flat_map_push(g, extended(run, cell.c));
            assert(before =~= kept.push(run));
            assert(g(extended(run, cell.c)) =~= g(run) + added);
            assert(kept.flat_map(g) + (g(run) + added) =~= (kept.flat_map(g) + g(run)) + added);
        } else {
            lemma_fresh_run(cell, display_offset, max_cols);
            before.lemma_flat_map_push(g, run_of(cell, display_offset));
        }
    }
}

} // verus!
