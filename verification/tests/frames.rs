use drop_term::frame::{
    draw_frame, flush_run, FrameLayout, Glyph, GlyphRun, Scrollback, Scrollbar, Viewport,
};
use drop_term::message::Message;
use drop_term::term_view::{
    can_point, cell_at, cell_corner, position_to_point, resolve_color, snap_cell, AnsiColor,
    CellPosition, CellSide, GridPoint, NamedColor, PanePosition, PointerEvent, PromptColors,
    RenderCell, SelectionChange, SelectionKind, SelectionRange, TermViewState,
};
use drop_term::terminal::TermCommand;

const PROMPT: PromptColors = PromptColors { user_host: (1, 1, 1), directory: (2, 2, 2) };
const DEFAULT: (u8, u8, u8) = (9, 9, 9);
const WHITE: (u8, u8, u8) = (255, 255, 255);
const BACK: (u8, u8, u8) = (30, 30, 30);

fn at(line: i32, column: usize) -> GridPoint {
    GridPoint { line, column }
}

fn cell(line: i32, column: usize, c: char) -> RenderCell {
    RenderCell {
        point: at(line, column),
        c,
        fg: AnsiColor::Named(NamedColor::Foreground),
        bg: AnsiColor::Named(NamedColor::Background),
        flags: 0,
    }
}

fn frame_of(cells: &Vec<RenderCell>, selection: Option<SelectionRange>) -> FrameLayout {
    draw_frame(
        cells,
        at(0, 1),
        selection,
        PROMPT,
        Scrollback { total_lines: 24, screen_lines: 24, display_offset: 0 },
        Viewport { whole_cols: 4, visible_cols: 5 },
    )
}

#[test]
fn prompt_colors_replace_green_and_blue() {
    let drawn = |c: AnsiColor| resolve_color(c, DEFAULT, PROMPT);
    for i in [2, 10] {
        assert_eq!(drawn(AnsiColor::Indexed(i)), (1, 1, 1));
    }
    for i in [4, 12] {
        assert_eq!(drawn(AnsiColor::Indexed(i)), (2, 2, 2));
    }
    for n in [NamedColor::Green, NamedColor::DimGreen, NamedColor::BrightGreen] {
        assert_eq!(drawn(AnsiColor::Named(n)), (1, 1, 1));
    }
    for n in [NamedColor::Blue, NamedColor::DimBlue, NamedColor::BrightBlue] {
        assert_eq!(drawn(AnsiColor::Named(n)), (2, 2, 2));
    }
}

#[test]
fn other_colors_are_standard_or_default() {
    let drawn = |c: AnsiColor| resolve_color(c, DEFAULT, PROMPT);
    assert_eq!(drawn(AnsiColor::Spec((7, 8, 9))), (7, 8, 9));
    assert_eq!(drawn(AnsiColor::Indexed(0)), (0, 0, 0));
    assert_eq!(drawn(AnsiColor::Indexed(9)), (255, 0, 0));
    assert_eq!(drawn(AnsiColor::Indexed(15)), (255, 255, 255));
    assert_eq!(drawn(AnsiColor::Indexed(16)), DEFAULT);
    assert_eq!(drawn(AnsiColor::Indexed(255)), DEFAULT);
    assert_eq!(drawn(AnsiColor::Named(NamedColor::DimWhite)), (229, 229, 229));
    assert_eq!(drawn(AnsiColor::Named(NamedColor::BrightBlack)), (127, 127, 127));
    assert_eq!(drawn(AnsiColor::Named(NamedColor::Cursor)), DEFAULT);
    let pairs = [
        (NamedColor::Black, 0),
        (NamedColor::Red, 1),
        (NamedColor::Yellow, 3),
        (NamedColor::Magenta, 5),
        (NamedColor::Cyan, 6),
        (NamedColor::White, 7),
        (NamedColor::BrightRed, 9),
        (NamedColor::BrightYellow, 11),
        (NamedColor::BrightMagenta, 13),
        (NamedColor::BrightCyan, 14),
        (NamedColor::BrightWhite, 15),
    ];
    for (name, index) in pairs {
        assert_eq!(drawn(AnsiColor::Named(name)), drawn(AnsiColor::Indexed(index)));
    }
}

#[test]
fn inverse_cells_swap_their_colors() {
    let plain = snap_cell(cell(0, 0, 'a'), at(5, 5), None, PROMPT);
    assert_eq!((plain.fg, plain.bg, plain.is_cursor), (WHITE, BACK, false));
    let inverse = RenderCell { flags: 0b1, ..cell(0, 0, 'a') };
    let snap = snap_cell(inverse, at(0, 0), None, PROMPT);
    assert_eq!((snap.fg, snap.bg, snap.is_cursor), (BACK, WHITE, true));
    let bold = RenderCell { flags: 0b1111_1110, ..cell(0, 0, 'a') };
    assert_eq!(snap_cell(bold, at(0, 0), None, PROMPT).fg, WHITE);
}

#[test]
fn selected_cells_swap_their_colors() {
    let swapped = |range: SelectionRange, line: i32, column: usize| {
        snap_cell(cell(line, column, 'a'), at(9, 9), Some(range), PROMPT).fg == BACK
    };
    let simple = SelectionRange { start: at(-1, 3), end: at(1, 2), is_block: false };
    assert!(!swapped(simple, -1, 2));
    assert!(swapped(simple, -1, 3));
    assert!(swapped(simple, 0, 0));
    assert!(swapped(simple, 0, 80));
    assert!(swapped(simple, 1, 2));
    assert!(!swapped(simple, 1, 3));
    assert!(!swapped(simple, 2, 0));
    assert!(!swapped(simple, -2, 9));
    let block = SelectionRange { start: at(-1, 1), end: at(1, 2), is_block: true };
    assert!(!swapped(block, 0, 0));
    assert!(swapped(block, 0, 1));
    assert!(swapped(block, 0, 2));
    assert!(!swapped(block, 0, 3));
}

#[test]
fn runs_are_clipped_to_the_pane() {
    let run = GlyphRun {
        start_col: 2,
        row: 3,
        fg: WHITE,
        bg: (1, 2, 3),
        text: "a bcd".chars().collect(),
    };
    let drawing = flush_run(&run, 6).unwrap();
    assert_eq!(drawing.cols, 4);
    assert_eq!(drawing.background, Some((1, 2, 3)));
    assert_eq!(
        drawing.glyphs,
        vec![Glyph { col: 2, c: 'a' }, Glyph { col: 4, c: 'b' }, Glyph { col: 5, c: 'c' }]
    );
    assert_eq!(flush_run(&run, 100).unwrap().cols, 5);
    assert!(flush_run(&run, 2).is_none());
    assert!(flush_run(&run, 0).is_none());
    let plain = GlyphRun { bg: BACK, ..run };
    assert_eq!(flush_run(&plain, 6).unwrap().background, None);
}

#[test]
fn cells_of_one_color_make_one_run() {
    let red = AnsiColor::Named(NamedColor::Red);
    let cells = vec![
        cell(0, 0, 'a'),
        cell(0, 1, 'b'),
        RenderCell { fg: red, ..cell(0, 2, 'c') },
        RenderCell { fg: red, ..cell(0, 3, 'd') },
        RenderCell { fg: red, ..cell(0, 4, 'e') },
        cell(1, 5, 'f'),
        cell(1, 0, 'g'),
        cell(1, 2, 'h'),
    ];
    let frame = frame_of(&cells, None);
    let drawn: Vec<(usize, i32, String)> = frame
        .runs
        .iter()
        .map(|r| (r.start_col, r.row, r.glyphs.iter().map(|g| g.c).collect()))
        .collect();
    assert_eq!(
        drawn,
        vec![
            (0, 0, "ab".to_string()),
            (2, 0, "cd".to_string()),
            (0, 1, "g".to_string()),
            (2, 1, "h".to_string()),
        ]
    );
    assert_eq!(frame.runs[1].fg, (205, 0, 0));
    assert_eq!(frame.cursor, Some((1, 0)));
    assert_eq!(frame.scrollbar, None);
}

#[test]
fn selection_starts_a_run_of_its_own() {
    let cells = vec![cell(0, 0, 'a'), cell(0, 1, 'b'), cell(0, 2, 'c')];
    let range = SelectionRange { start: at(0, 1), end: at(0, 1), is_block: false };
    let frame = frame_of(&cells, Some(range));
    assert_eq!(frame.runs.len(), 3);
    assert_eq!(frame.runs[1].background, Some(WHITE));
    assert_eq!(frame.runs[1].fg, BACK);
    assert_eq!(frame.runs[0].background, None);
}

#[test]
fn cursor_is_drawn_where_it_can_be_seen() {
    let shown = |column: usize| {
        let frame = draw_frame(
            &vec![cell(-2, column, 'x')],
            at(-2, column),
            None,
            PROMPT,
            Scrollback { total_lines: 30, screen_lines: 24, display_offset: 5 },
            Viewport { whole_cols: 4, visible_cols: 5 },
        );
        assert_eq!(
            frame.scrollbar,
            Some(Scrollbar { screen_lines: 24, total_lines: 30, display_offset: 5, max_offset: 6 })
        );
        frame.cursor
    };
    assert_eq!(shown(4), Some((4, 3)));
    assert_eq!(shown(5), None);
}

#[test]
fn empty_frame() {
    let frame = frame_of(&Vec::new(), None);
    assert_eq!(frame.background, BACK);
    assert!(frame.runs.is_empty());
    assert_eq!(frame.cursor, None);
}

#[test]
fn frame_shows_the_visible_cells() {
    let cells = vec![
        cell(0, 0, 'a'),
        cell(0, 1, ' '),
        cell(0, 3, 'b'),
        cell(0, 4, 'c'),
        cell(1, 2, 'd'),
    ];
    let frame = frame_of(&cells, None);
    let shown: Vec<(usize, i32, char)> = frame
        .runs
        .iter()
        .flat_map(|run| run.glyphs.iter().map(|g| (g.col, run.row, g.c)))
        .collect();
    assert_eq!(shown, vec![(0, 0, 'a'), (3, 0, 'b'), (2, 1, 'd')]);
}

fn place(x: i128, y: i128) -> PanePosition {
    PanePosition { x, y }
}

#[test]
fn dragging_selects() {
    let mut state = TermViewState::default();
    let position = place(3 * 9 + 8, 4 * 18 + 17);
    assert!(state.update(PointerEvent::Moved(Some(position)), 0, 1).is_none());
    assert!(state.update(PointerEvent::LeftPressed(None), 0, 1).is_none());
    assert!(!state.dragging);
    let step = state.update(PointerEvent::LeftPressed(Some(position)), 10, 1).unwrap();
    assert_eq!(
        step.change,
        SelectionChange::Start {
            kind: SelectionKind::Simple,
            point: at(-6, 3),
            side: CellSide::Left,
        }
    );
    assert_eq!(step.command, TermCommand::Invalidate);
    assert!(matches!(step.message, Message::TerminalUpdated(1)));
    assert!(state.dragging);
    let step = state.update(PointerEvent::Moved(Some(position)), 2, 1).unwrap();
    assert_eq!(step.change, SelectionChange::Extend { point: at(2, 3), side: CellSide::Left });
    assert_eq!(step.command, TermCommand::Invalidate);
    assert!(state.update(PointerEvent::Moved(None), 2, 1).is_none());
    assert!(state.update(PointerEvent::Other, 2, 1).is_none());
    assert!(state.dragging);
    assert!(state.update(PointerEvent::LeftReleased, 2, 1).is_none());
    assert!(!state.dragging);
}

#[test]
fn positions_follow_the_scroll_offset() {
    let position = place(7 * 9, 0);
    assert_eq!(position_to_point(position, 0), at(0, 7));
    assert_eq!(position_to_point(position, 100), at(-100, 7));
    assert_eq!(position_to_point(position, (1 << 31) - 1), at(-i32::MAX, 7));
    assert!(can_point(position, (1 << 31) - 1));
    assert!(!can_point(place(0, -18 * 5), (1 << 31) - 1));
}

#[test]
fn every_pixel_of_a_cell_points_to_it() {
    let corner = cell_corner(5, 7);
    assert_eq!(corner, place(45, 126));
    for dx in 0..9 {
        for dy in 0..18 {
            let position = place(corner.x + dx, corner.y + dy);
            assert_eq!(cell_at(position), CellPosition { col: 5, row: 7 });
            assert_eq!(position_to_point(position, 3), at(4, 5));
        }
    }
}

#[test]
fn positions_beyond_the_edges() {
    assert_eq!(cell_at(place(-1, -17)), CellPosition { col: 0, row: 0 });
    assert_eq!(cell_at(place(-100, -18)), CellPosition { col: 0, row: -1 });
    assert_eq!(
        cell_at(place(i128::MAX, i128::MAX)),
        CellPosition { col: usize::MAX, row: i32::MAX }
    );
    assert_eq!(cell_at(place(i128::MIN, i128::MIN)), CellPosition { col: 0, row: i32::MIN });
}

#[test]
fn whole_pixels_are_enough() {
    let mut bits: u32 = 0;
    while f32::from_bits(bits) < 16_777_216.0 {
        for p in [f32::from_bits(bits), -f32::from_bits(bits)] {
            let cell = cell_at(place(p as i128, p as i128));
            assert_eq!(cell.col, (p / 9.0).max(0.0) as usize);
            assert_eq!(cell.row, (p / 18.0) as i32);
        }
        bits += 1009;
    }
    for n in 1..100_000u32 {
        for multiple in [n as f32 * 9.0, n as f32 * 18.0] {
            for p in [f32::from_bits(multiple.to_bits() - 1), multiple] {
                let cell = cell_at(place(p as i128, p as i128));
                assert_eq!(cell.col, (p / 9.0).max(0.0) as usize);
                assert_eq!(cell.row, (p / 18.0) as i32);
            }
        }
    }
    for p in [f32::INFINITY, f32::NEG_INFINITY, f32::NAN] {
        let cell = cell_at(place(p as i128, p as i128));
        assert_eq!(cell.col, (p / 9.0).max(0.0) as usize);
        assert_eq!(cell.row, (p / 18.0) as i32);
    }
}
