//! What a terminal and its shell are told.

use crate::events::{DrainStep, TermSignal};
use crate::message::Message;
use crate::pane::PaneId;
use crate::terminal::{CommandView, TermDimensions, WindowSize};
use vstd::prelude::*;

verus! {

/// Whether `ESC [ 201 ~` stands at `i` in `s`.
pub open spec fn marker_at(s: Seq<u8>, i: int) -> bool {
    &&& 0 <= i <= s.len() - 6
    &&& s[i] == 0x1b
    &&& s[i + 1] == 0x5b
    &&& s[i + 2] == 0x32
    &&& s[i + 3] == 0x30
    &&& s[i + 4] == 0x31
    &&& s[i + 5] == 0x7e
}

proof fn lemma_starts(s: Seq<u8>)
    ensures
        crate::terminal::starts_with_paste_end(s) <==> marker_at(s, 0),
{
    let end = crate::terminal::paste_end();
    assert(end[0] == 0x1b && end[1] == 0x5b && end[2] == 0x32 && end[3] == 0x30 && end[4] == 0x31
        && end[5] == 0x7e);
    if s.len() >= 6 {
        let head = s.take(6);
        assert(head[0] == s[0] && head[1] == s[1] && head[2] == s[2] && head[3] == s[3] && head[4]
            == s[4] && head[5] == s[5]);
        if marker_at(s, 0) {
            assert(head =~= end);
        }
    }
}

/// Text without the end marker is left as it is, whatever else is in it.
pub proof fn law_text_without_marker_is_kept(s: Seq<u8>)
    requires
        forall|i: int| !(#[trigger] marker_at(s, i)),
    ensures
        crate::terminal::without_paste_end(s) == s,
    decreases s.len(),
{
    lemma_starts(s);
    if s.len() > 0 {
        let rest = s.skip(1);
        assert(!marker_at(s, 0));
        assert forall|i: int| !(#[trigger] marker_at(rest, i)) by {
            assert(!marker_at(s, i + 1));
        }
        law_text_without_marker_is_kept(rest);
        assert(seq![s[0]] + rest =~= s);
    }
}

/// The first end marker is taken out; what is before it stays, and what is behind it
/// is treated in the same way.
pub proof fn law_first_marker_is_taken_out(s: Seq<u8>, i: int)
    requires
        marker_at(s, i),
        forall|j: int| j < i ==> !(#[trigger] marker_at(s, j)),
    ensures
        crate::terminal::without_paste_end(s) == s.take(i) + crate::terminal::without_paste_end(
            s.skip(i + 6),
        ),
    decreases i,
{
    lemma_starts(s);
    if i == 0 {
        assert(s.take(0) + crate::terminal::without_paste_end(s.skip(6))
            =~= crate::terminal::without_paste_end(s.skip(6)));
    } else {
        let rest = s.skip(1);
        assert(!marker_at(s, 0));
        assert(marker_at(rest, i - 1));
        assert forall|j: int| j < i - 1 implies !(#[trigger] marker_at(rest, j)) by {
            assert(!marker_at(s, j + 1));
        }
        law_first_marker_is_taken_out(rest, i - 1);
        assert(rest.skip(i - 1 + 6) =~= s.skip(i + 6));
        let behind = crate::terminal::without_paste_end(s.skip(i + 6));
        assert(seq![s[0]] + (rest.take(i - 1) + behind) =~= s.take(i) + behind);
    }
}

/// Pasted text goes to the shell in UTF-8 without end markers, between `ESC [ 200 ~`
/// and `ESC [ 201 ~` if, and only if, the fifth bit of the terminal's mode is set.
pub proof fn law_paste_is_bracketed_on_demand(text: Seq<char>, mode: u32)
    ensures
        ({
            let clean = crate::terminal::without_paste_end(vstd::utf8::encode_utf8(text));
            let sent = crate::terminal::pasted(text, mode);
            &&& (mode / 16) % 2 == 0 ==> sent == clean
            &&& (mode / 16) % 2 == 1 ==> sent == seq![
                0x1bu8,
                0x5bu8,
                0x32u8,
                0x30u8,
                0x30u8,
                0x7eu8,
            ] + clean + seq![0x1bu8, 0x5bu8, 0x32u8, 0x30u8, 0x31u8, 0x7eu8]
        }),
{
    assert((mode & 0x10 == 0x10) <==> (mode / 16) % 2 == 1) by (bit_vector);
}

/// A new size goes to the emulator's grid and to the pseudo-terminal, which is told
/// rows, columns and a cell of nine by eighteen pixels; and the drawing is dropped.
pub proof fn law_resize_tells_grid_and_shell(cols: u16, rows: u16)
    ensures
        crate::terminal::resize_commands(cols, rows) == seq![
            CommandView::ResizeGrid(TermDimensions { cols, rows }),
            CommandView::ResizePty(
                WindowSize { num_lines: rows, num_cols: cols, cell_width: 9, cell_height: 18 },
            ),
            CommandView::Invalidate,
        ],
{
}

/// Scrolling moves the view by just that many lines, either way, and drops the
/// drawing.
pub proof fn law_scroll_moves_and_redraws(lines: i32)
    ensures
        crate::terminal::scroll_commands(lines) == seq![
            CommandView::ScrollDisplay(lines),
            CommandView::Invalidate,
        ],
{
}

/// A shell is told the size of its terminal in cells, and that of a cell in pixels.
pub proof fn law_window_size(cols: u16, rows: u16)
    ensures
        crate::terminal::window_size_of(cols, rows).num_lines == rows,
        crate::terminal::window_size_of(cols, rows).num_cols == cols,
        crate::terminal::window_size_of(cols, rows).cell_width == 9,
        crate::terminal::window_size_of(cols, rows).cell_height == 18,
{
}

/// The user's own shell is tried first, then `bash` and then `sh`.
pub proof fn law_own_shell_comes_first(shell: Seq<char>)
    ensures
        crate::terminal::candidate_shells(Some(shell)) == seq![shell, "/bin/bash"@, "/bin/sh"@],
        crate::terminal::candidate_shells(None) == seq![
            Seq::<char>::empty(),
            "/bin/bash"@,
            "/bin/sh"@,
        ],
{
}

/// The first candidate that has a name and exists is the shell.
pub proof fn law_first_shell_that_exists(
    candidates: Seq<Seq<char>>,
    exists: Seq<bool>,
    from: int,
    i: int,
)
    requires
        0 <= from <= i < candidates.len(),
        candidates[i].len() > 0,
        exists[i],
        forall|j: int|
            from <= j < i ==> (#[trigger] candidates[j]).len() == 0 || !exists[j],
    ensures
        crate::terminal::shell_choice(candidates, exists, from) == candidates[i],
    decreases i - from,
{
    if from < i {
        assert(candidates[from].len() == 0 || !exists[from]);
        law_first_shell_that_exists(candidates, exists, from + 1, i);
    }
}

/// Where none has a name and exists, the shell is `sh`.
pub proof fn law_no_shell_exists(candidates: Seq<Seq<char>>, exists: Seq<bool>, from: int)
    requires
        0 <= from <= candidates.len(),
        forall|j: int|
            from <= j < candidates.len() ==> (#[trigger] candidates[j]).len() == 0 || !exists[j],
    ensures
        crate::terminal::shell_choice(candidates, exists, from) == "/bin/sh"@,
    decreases candidates.len() - from,
{
    if from < candidates.len() {
        assert(candidates[from].len() == 0 || !exists[from]);
        law_no_shell_exists(candidates, exists, from + 1);
    }
}

/// The child's end closes the pane at once, anything else asks for another look, and
/// an empty queue has the pane drawn anew, or, where nothing was found in it, ends the
/// listening.
pub proof fn law_looks_at_the_queue(pane: PaneId, draining: bool)
    ensures
        crate::events::drain_step(pane, draining, Some(TermSignal::Exit)) == DrainStep::Emit(
            Message::ClosePane(pane),
        ),
        crate::events::drain_step(pane, draining, Some(TermSignal::Wakeup)) is LookAgain,
        crate::events::drain_step(pane, true, None) == DrainStep::Emit(
            Message::TerminalUpdated(pane),
        ),
        crate::events::drain_step(pane, false, None) is End,
{
}

} // verus!
