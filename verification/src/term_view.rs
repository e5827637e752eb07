//! Drawing a terminal, and selecting text in it with the mouse.
//!
//! Drawing is counted in cells. The program around it turns cells into pixels, and
//! fills the rectangles and glyphs that a
//! [`FrameLayout`](crate::frame::FrameLayout) names.

use crate::config::Rgb;
use crate::message::Message;
use crate::pane::PaneId;
use crate::terminal::{CommandView, TermCommand, CELL_HEIGHT, CELL_WIDTH};
use alacritty_terminal::index::{Column, Line, Point};
use alacritty_terminal::term::cell::Flags;
use vstd::prelude::*;

verus! {

/// The colour behind everything.
pub const DEFAULT_BACKGROUND: (u8, u8, u8) = (30, 30, 30);

/// The colour of text that has none of its own.
pub const DEFAULT_FOREGROUND: (u8, u8, u8) = (255, 255, 255);

/// The standard colours.
pub const ANSI_PALETTE: [(u8, u8, u8); 16] = [
    (0, 0, 0), (205, 0, 0), (0, 205, 0), (205, 205, 0),
    (0, 0, 238), (205, 0, 205), (0, 205, 205), (229, 229, 229),
    (127, 127, 127), (255, 0, 0), (0, 255, 0), (255, 255, 0),
    (92, 92, 255), (255, 0, 255), (0, 255, 255), (255, 255, 255),
];

/// A colour that a program can ask for by name.
#[derive(Debug, Clone, Copy, PartialEq, Eq, Structural)]
pub enum NamedColor {
    Black,
    Red,
    Green,
    Yellow,
    Blue,
    Magenta,
    Cyan,
    White,
    BrightBlack,
    BrightRed,
    BrightGreen,
    BrightYellow,
    BrightBlue,
    BrightMagenta,
    BrightCyan,
    BrightWhite,
    Foreground,
    Background,
    Cursor,
    DimBlack,
    DimRed,
    DimGreen,
    DimYellow,
    DimBlue,
    DimMagenta,
    DimCyan,
    DimWhite,
    BrightForeground,
    DimForeground,
}

/// The colour of a cell, as a program asked for it.
#[derive(Debug, Clone, Copy, PartialEq, Eq)]
pub enum AnsiColor {
    Named(NamedColor),
    Spec(Rgb),
    Indexed(u8),
}

/// The place of a named colour among the standard ones. Dim colours have the
/// place of their normal ones.
pub open spec fn slot(name: NamedColor) -> Option<int> {
    match name {
        NamedColor::Black | NamedColor::DimBlack => Some(0),
        NamedColor::Red | NamedColor::DimRed => Some(1),
        NamedColor::Green | NamedColor::DimGreen => Some(2),
        NamedColor::Yellow | NamedColor::DimYellow => Some(3),
        NamedColor::Blue | NamedColor::DimBlue => Some(4),
        NamedColor::Magenta | NamedColor::DimMagenta => Some(5),
        NamedColor::Cyan | NamedColor::DimCyan => Some(6),
        NamedColor::White | NamedColor::DimWhite => Some(7),
        NamedColor::BrightBlack => Some(8),
        NamedColor::BrightRed => Some(9),
        NamedColor::BrightGreen => Some(10),
        NamedColor::BrightYellow => Some(11),
        NamedColor::BrightBlue => Some(12),
        NamedColor::BrightMagenta => Some(13),
        NamedColor::BrightCyan => Some(14),
        NamedColor::BrightWhite => Some(15),
        _ => None,
    }
}

/// The colours that the user has set, and that take the places of green and blue:
/// the ones that most shell prompts use for `user@host` and for the working
/// directory.
#[derive(Debug, Clone, Copy, PartialEq, Eq)]
pub struct PromptColors {
    pub user_host: Rgb,
    pub directory: Rgb,
}

/// The colour in a place of the palette, or `default` where there is no such
/// place.
pub open spec fn slot_color(i: int, default: Rgb, prompt: PromptColors) -> Rgb {
    if i == 2 || i == 10 {
        prompt.user_host
    } else if i == 4 || i == 12 {
        prompt.directory
    } else if 0 <= i < 16 {
        ANSI_PALETTE[i]
    } else {
        default
    }
}

/// The colour that is drawn for `color`.
pub open spec fn drawn_color(color: AnsiColor, default: Rgb, prompt: PromptColors) -> Rgb {
    match color {
        AnsiColor::Spec(rgb) => rgb,
        AnsiColor::Indexed(i) => slot_color(i as int, default, prompt),
        AnsiColor::Named(name) => match slot(name) {
            Some(i) => slot_color(i, default, prompt),
            None => default,
        },
    }
}

/// The colour that is drawn for `color`.
pub fn resolve_color(color: AnsiColor, default: Rgb, prompt: PromptColors) -> (drawn: Rgb)
    ensures
        drawn == drawn_color(color, default, prompt),
{
    match color {
        AnsiColor::Spec(rgb) => rgb,
        AnsiColor::Indexed(i) => {
            if i == 2 || i == 10 {
                prompt.user_host
            } else if i == 4 || i == 12 {
                prompt.directory
            } else if i < 16 {
                ANSI_PALETTE[i as usize]
            } else {
                default
            }
        },
        AnsiColor::Named(name) => match name {
            NamedColor::Green | NamedColor::DimGreen | NamedColor::BrightGreen => prompt.user_host,
            NamedColor::Blue | NamedColor::DimBlue | NamedColor::BrightBlue => prompt.directory,
            NamedColor::Black | NamedColor::DimBlack => (0, 0, 0),
            NamedColor::Red | NamedColor::DimRed => (205, 0, 0),
            NamedColor::Yellow | NamedColor::DimYellow => (205, 205, 0),
            NamedColor::Magenta | NamedColor::DimMagenta => (205, 0, 205),
            NamedColor::Cyan | NamedColor::DimCyan => (0, 205, 205),
            NamedColor::White | NamedColor::DimWhite => (229, 229, 229),
            NamedColor::BrightBlack => (127, 127, 127),
            NamedColor::BrightRed => (255, 0, 0),
            NamedColor::BrightYellow => (255, 255, 0),
            NamedColor::BrightMagenta => (255, 0, 255),
            NamedColor::BrightCyan => (0, 255, 255),
            NamedColor::BrightWhite => (255, 255, 255),
            _ => default,
        },
    }
}

/// A place in a terminal's grid. Lines above the screen have negative numbers.
#[derive(Debug, Clone, Copy, PartialEq, Eq, Structural)]
pub struct GridPoint {
    pub line: i32,
    pub column: usize,
}

/// A place in the visible part of a terminal, counted from its top left.
#[derive(Debug, Clone, Copy, PartialEq, Eq, Structural)]
pub struct CellPosition {
    pub col: usize,
    pub row: i32,
}

/// A place in a pane, in pixels from its top left. A fraction of a pixel is cut
/// off, towards zero.
#[derive(Debug, Clone, Copy, PartialEq, Eq, Structural)]
pub struct PanePosition {
    pub x: i128,
    pub y: i128,
}

/// The column that the place `x` pixels from the left edge is in. What lies further
/// left counts as the first column, and the last is the largest that has a number.
pub open spec fn column_at(x: int) -> usize {
    let column = x / CELL_WIDTH as int;
    if x < 0 {
        0
    } else if column > usize::MAX {
        usize::MAX
    } else {
        column as usize
    }
}

/// The row that the place `y` pixels from the top edge is in, counted away from
/// that edge in both directions as far as rows have numbers.
pub open spec fn row_at(y: int) -> i32 {
    let row = if y < 0 {
        -(-y / CELL_HEIGHT as int)
    } else {
        y / CELL_HEIGHT as int
    };
    if row < i32::MIN {
        i32::MIN
    } else if row > i32::MAX {
        i32::MAX
    } else {
        row as i32
    }
}

/// The cell that a place in a pane is in.
pub open spec fn cell_under(position: PanePosition) -> CellPosition {
    CellPosition { col: column_at(position.x as int), row: row_at(position.y as int) }
}

/// The top left of a cell.
pub open spec fn corner_of(cell: CellPosition) -> PanePosition {
    PanePosition { x: (CELL_WIDTH * cell.col) as i128, y: (CELL_HEIGHT * cell.row) as i128 }
}

/// The cell that a place in a pane is in.
pub fn cell_at(position: PanePosition) -> (cell: CellPosition)
    ensures
        cell == cell_under(position),
{
    let col: usize = if position.x < 0 {
        0
    } else {
        let column: u128 = position.x as u128 / CELL_WIDTH as u128;
        if column > usize::MAX as u128 {
            usize::MAX
        } else {
            column as usize
        }
    };
    let row: i32 = if position.y < 0 {
        let up: u128 = (-(position.y + 1)) as u128 + 1;
        let rows: u128 = up / CELL_HEIGHT as u128;
        if rows > i32::MAX as u128 {
            i32::MIN
        } else {
            -(rows as i32)
        }
    } else {
        let rows: u128 = position.y as u128 / CELL_HEIGHT as u128;
        if rows > i32::MAX as u128 {
            i32::MAX
        } else {
            rows as i32
        }
    };
    CellPosition { col, row }
}

/// The top left of the cell in the column `col` and the row `row` of the screen:
/// where its background and its glyph are drawn.
pub fn cell_corner(col: usize, row: i32) -> (corner: PanePosition)
    ensures
        corner == corner_of(CellPosition { col, row }),
        corner.x == CELL_WIDTH * col,
        corner.y == CELL_HEIGHT * row,
{
    PanePosition { x: CELL_WIDTH as i128 * col as i128, y: CELL_HEIGHT as i128 * row as i128 }
}

/// A scroll offset as lines are counted: in thirty-two bits.
pub open spec fn line_offset(display_offset: usize) -> int {
    (display_offset as i32) as int
}

/// The place in the grid that is seen in a cell of a view that is scrolled back by
/// `display_offset` lines.
pub open spec fn point_in(cell: CellPosition, display_offset: usize) -> GridPoint {
    GridPoint { line: (cell.row - line_offset(display_offset)) as i32, column: cell.col }
}

/// The place in the grid that is seen at `position`.
pub open spec fn point_at(position: PanePosition, display_offset: usize) -> GridPoint {
    point_in(cell_under(position), display_offset)
}

/// Whether the line of that place has a number.
pub open spec fn has_point(position: PanePosition, display_offset: usize) -> bool {
    i32::MIN <= cell_under(position).row - line_offset(display_offset) <= i32::MAX
}

/// Whether [`position_to_point`] can answer: the line must have a number.
pub fn can_point(position: PanePosition, display_offset: usize) -> (can: bool)
    ensures
        can == has_point(position, display_offset),
{
    let line: i64 = cell_at(position).row as i64 - (display_offset as i32) as i64;
    i32::MIN as i64 <= line && line <= i32::MAX as i64
}

/// The place in the grid that is seen at `position`.
pub fn position_to_point(position: PanePosition, display_offset: usize) -> (point: GridPoint)
    requires
        has_point(position, display_offset),
    ensures
        point == point_at(position, display_offset),
{
    let cell = cell_at(position);
    GridPoint { line: cell.row - display_offset as i32, column: cell.col }
}

/// Pointing undoes drawing: the cell in which a point of the grid is drawn shows
/// that point.
pub proof fn law_pointing_undoes_drawing(point: GridPoint, display_offset: usize)
    requires
        i32::MIN <= point.line + line_offset(display_offset) <= i32::MAX,
    ensures
        point_in(
            CellPosition {
                col: point.column,
                row: (point.line + line_offset(display_offset)) as i32,
            },
            display_offset,
        ) == point,
{
}

/// Every pixel of a cell on the screen belongs to the point of the grid that is
/// drawn there.
pub proof fn law_every_pixel_of_a_cell_points_to_it(
    point: GridPoint,
    display_offset: usize,
    dx: int,
    dy: int,
)
    requires
        0 <= point.line + line_offset(display_offset) <= i32::MAX,
        0 <= dx < CELL_WIDTH,
        0 <= dy < CELL_HEIGHT,
    ensures
        ({
            let cell = CellPosition {
                col: point.column,
                row: (point.line + line_offset(display_offset)) as i32,
            };
            let position = PanePosition {
                x: (corner_of(cell).x + dx) as i128,
                y: (corner_of(cell).y + dy) as i128,
            };
            &&& cell_under(position) == cell
            &&& has_point(position, display_offset)
            &&& point_at(position, display_offset) == point
        }),
{
    let row = point.line + line_offset(display_offset);
    let x = CELL_WIDTH * point.column + dx;
    let y = CELL_HEIGHT * row + dy;
    assert(x / 9 == point.column);
    assert(y / 18 == row);
}

/// A selected part of a grid, from its top left to its bottom right.
#[derive(Debug, Clone, Copy, PartialEq, Eq, Structural)]
pub struct SelectionRange {
    pub start: GridPoint,
    pub end: GridPoint,
    /// Whether the selection is a rectangle.
    pub is_block: bool,
}

/// Whether a point is in a selection: between its first and its last line, and
/// not before its start or behind its end, which in a rectangle holds for every
/// line and else for the first and the last line only.
pub open spec fn is_selected(range: SelectionRange, point: GridPoint) -> bool {
    &&& range.start.line <= point.line <= range.end.line
    &&& range.start.column <= point.column || (range.start.line != point.line && !range.is_block)
    &&& point.column <= range.end.column || (range.end.line != point.line && !range.is_block)
}

/// Calls `SelectionRange::contains` of `alacritty_terminal`, which compares the
/// point's line and column with those of the selection's ends.
#[verifier::external_body]
fn selection_contains(range: SelectionRange, point: GridPoint) -> (selected: bool)
    ensures
        selected == is_selected(range, point),
{
    alacritty_terminal::selection::SelectionRange {
        start: Point::new(Line(range.start.line), Column(range.start.column)),
        end: Point::new(Line(range.end.line), Column(range.end.column)),
        is_block: range.is_block,
    }.contains(Point::new(Line(point.line), Column(point.column)))
}

/// Whether the flags of a cell ask for its colours to be swapped.
pub open spec fn is_inverse(flags: u16) -> bool {
    flags & 1 == 1
}

/// Calls `Flags::contains` of `alacritty_terminal` on the cell flags with the bits
/// `flags`. The flag `INVERSE` is the first bit, and `contains` says whether all
/// bits of its argument are set; bits that name no flag are no hindrance.
#[verifier::external_body]
fn has_inverse(flags: u16) -> (inverse: bool)
    ensures
        inverse == is_inverse(flags),
{
    Flags::from_bits_retain(flags).contains(Flags::INVERSE)
}

/// A cell of a terminal.
#[derive(Debug, Clone, Copy, PartialEq, Eq)]
pub struct RenderCell {
    pub point: GridPoint,
    pub c: char,
    pub fg: AnsiColor,
    pub bg: AnsiColor,
    /// The bits of the cell's flags.
    pub flags: u16,
}

/// A cell with the colours that it is drawn in.
#[derive(Debug, Clone, Copy, PartialEq, Eq)]
pub struct CellSnap {
    pub line: i32,
    pub col: usize,
    pub c: char,
    pub fg: Rgb,
    pub bg: Rgb,
    pub is_cursor: bool,
}

/// A cell as it is drawn: with its colours swapped where it is selected or asks
/// for that. The cursor is not: it is drawn over the text.
pub open spec fn snapped(
    cell: RenderCell,
    cursor: GridPoint,
    selection: Option<SelectionRange>,
    prompt: PromptColors,
) -> CellSnap {
    let fg = drawn_color(cell.fg, DEFAULT_FOREGROUND, prompt);
    let bg = drawn_color(cell.bg, DEFAULT_BACKGROUND, prompt);
    let swap = is_inverse(cell.flags) || (selection matches Some(range) && is_selected(
        range,
        cell.point,
    ));
    CellSnap {
        line: cell.point.line,
        col: cell.point.column,
        c: cell.c,
        fg: if swap {
            bg
        } else {
            fg
        },
        bg: if swap {
            fg
        } else {
            bg
        },
        is_cursor: cell.point == cursor,
    }
}

/// A cell as it is drawn.
pub fn snap_cell(
    cell: RenderCell,
    cursor: GridPoint,
    selection: Option<SelectionRange>,
    prompt: PromptColors,
) -> (snap: CellSnap)
    ensures
        snap == snapped(cell, cursor, selection, prompt),
{
    let mut fg = resolve_color(cell.fg, DEFAULT_FOREGROUND, prompt);
    let mut bg = resolve_color(cell.bg, DEFAULT_BACKGROUND, prompt);
    let selected = match selection {
        Some(range) => selection_contains(range, cell.point),
        None => false,
    };
    if has_inverse(cell.flags) || selected {
        let swapped = fg;
        fg = bg;
        bg = swapped;
    }
    CellSnap {
        line: cell.point.line,
        col: cell.point.column,
        c: cell.c,
        fg,
        bg,
        is_cursor: cell.point.line == cursor.line && cell.point.column == cursor.column,
    }
}

/// How the mouse stands to a terminal's text.
#[derive(Debug, Clone, Copy, PartialEq, Eq, Structural)]
pub struct TermViewState {
    /// Whether a selection is being dragged.
    pub dragging: bool,
}

impl Default for TermViewState {
    fn default() -> (state: Self)
        ensures
            !state.dragging,
    {
        TermViewState { dragging: false }
    }
}

/// What the mouse does.
#[derive(Debug, Clone, Copy, PartialEq, Eq, Structural)]
pub enum PointerEvent {
    /// The left button goes down at this place of the pane, or somewhere else.
    LeftPressed(Option<PanePosition>),
    /// The mouse moves to this place, or it is not known where to.
    Moved(Option<PanePosition>),
    /// The left button goes up.
    LeftReleased,
    Other,
}

/// What a selection takes in.
#[derive(Debug, Clone, Copy, PartialEq, Eq, Structural)]
pub enum SelectionKind {
    /// What lies between its two ends, and no more.
    Simple,
    /// A rectangle.
    Block,
    /// Whole words.
    Semantic,
    /// Whole lines.
    Lines,
}

/// An edge of a cell.
#[derive(Debug, Clone, Copy, PartialEq, Eq, Structural)]
pub enum CellSide {
    Left,
    Right,
}

/// What becomes of a terminal's selection.
#[derive(Debug, Clone, Copy, PartialEq, Eq, Structural)]
pub enum SelectionChange {
    /// A new selection starts at an edge of this cell.
    Start { kind: SelectionKind, point: GridPoint, side: CellSide },
    /// The selection, if there is one, now reaches to an edge of this cell.
    Extend { point: GridPoint, side: CellSide },
}

/// What follows from an event that changes the selection.
#[derive(Debug, Clone)]
pub struct SelectionStep {
    pub change: SelectionChange,
    /// What is then to be done to the terminal.
    pub command: TermCommand,
    /// What tells the applet of it.
    pub message: Message,
}

impl TermViewState {
    /// The change that an event makes to the selection, if any.
    pub open spec fn change(self, event: PointerEvent, display_offset: usize) -> Option<
        SelectionChange,
    > {
        match event {
            PointerEvent::LeftPressed(Some(position)) => Some(
                SelectionChange::Start {
                    kind: SelectionKind::Simple,
                    point: point_at(position, display_offset),
                    side: CellSide::Left,
                },
            ),
            PointerEvent::Moved(Some(position)) => if self.dragging {
                Some(
                    SelectionChange::Extend {
                        point: point_at(position, display_offset),
                        side: CellSide::Left,
                    },
                )
            } else {
                None
            },
            _ => None,
        }
    }

    /// Whether a selection is being dragged after an event.
    pub open spec fn drags_after(self, event: PointerEvent) -> bool {
        match event {
            PointerEvent::LeftPressed(Some(_)) => true,
            PointerEvent::LeftReleased => false,
            _ => self.dragging,
        }
    }

    /// Takes an event over the pane `pane`, and answers with what becomes of the
    /// selection; the cached drawing is then dropped, and the applet told.
    pub fn update(&mut self, event: PointerEvent, display_offset: usize, pane: PaneId) -> (outcome:
        Option<SelectionStep>)
        requires
            match event {
                PointerEvent::LeftPressed(Some(position)) => has_point(position, display_offset),
                PointerEvent::Moved(Some(position)) => old(self).dragging ==> has_point(
                    position,
                    display_offset,
                ),
                _ => true,
            },
        ensures
            final(self).dragging == old(self).drags_after(event),
            match old(self).change(event, display_offset) {
                Some(change) => outcome matches Some(step) && {
                    &&& step.change == change
                    &&& step.command@ == CommandView::Invalidate
                    &&& step.message == Message::TerminalUpdated(pane)
                },
                None => outcome is None,
            },
    {
        match event {
            PointerEvent::LeftPressed(Some(position)) => {
                let point = position_to_point(position, display_offset);
                self.dragging = true;
                Some(
                    SelectionStep {
                        change: SelectionChange::Start {
                            kind: SelectionKind::Simple,
                            point,
                            side: CellSide::Left,
                        },
                        command: TermCommand::Invalidate,
                        message: Message::TerminalUpdated(pane),
                    },
                )
            },
            PointerEvent::Moved(Some(position)) => {
                if self.dragging {
                    let point = position_to_point(position, display_offset);
                    Some(
                        SelectionStep {
                            change: SelectionChange::Extend { point, side: CellSide::Left },
                            command: TermCommand::Invalidate,
                            message: Message::TerminalUpdated(pane),
                        },
                    )
                } else {
                    None
                }
            },
            PointerEvent::LeftReleased => {
                self.dragging = false;
                None
            },
            _ => None,
        }
    }
}

} // verus!
