//! One terminal: what is asked of its pseudo-terminal and its grid, and when.
//!
//! The emulator and the child shell live outside this crate. A [`Terminal`]
//! remembers the size it last asked for; every operation answers with the
//! commands that the owner of the emulator has to carry out, in order.

use alacritty_terminal::term::TermMode;
use vstd::prelude::*;

verus! {

/// Width of one cell in pixels.
pub const CELL_WIDTH: u16 = 9;

/// Height of one cell in pixels.
pub const CELL_HEIGHT: u16 = 18;

/// How many lines a terminal keeps above its visible screen.
pub const SCROLLING_HISTORY: usize = 100_000;

/// A terminal's size in cells.
#[derive(Debug, Clone, Copy, PartialEq, Eq, Structural)]
pub struct TermDimensions {
    pub cols: u16,
    pub rows: u16,
}

impl TermDimensions {
    /// A fresh grid has no history: all its lines are on the screen.
    pub fn total_lines(&self) -> (lines: usize)
        ensures
            lines == self.rows,
    {
        self.rows as usize
    }

    pub fn screen_lines(&self) -> (lines: usize)
        ensures
            lines == self.rows,
    {
        self.rows as usize
    }

    pub fn columns(&self) -> (columns: usize)
        ensures
            columns == self.cols,
    {
        self.cols as usize
    }
}

/// A terminal's size as its pseudo-terminal is told: cells, and pixels per cell.
#[derive(Debug, Clone, Copy, PartialEq, Eq, Structural)]
pub struct WindowSize {
    pub num_lines: u16,
    pub num_cols: u16,
    pub cell_width: u16,
    pub cell_height: u16,
}

/// The window size of `cols` by `rows` cells.
pub open spec fn window_size_of(cols: u16, rows: u16) -> WindowSize {
    WindowSize {
        num_lines: rows,
        num_cols: cols,
        cell_width: CELL_WIDTH,
        cell_height: CELL_HEIGHT,
    }
}

pub fn window_size(cols: u16, rows: u16) -> (size: WindowSize)
    ensures
        size == window_size_of(cols, rows),
{
    WindowSize { num_lines: rows, num_cols: cols, cell_width: CELL_WIDTH, cell_height: CELL_HEIGHT }
}

/// One thing to do to a running terminal.
#[derive(Debug, Clone, PartialEq, Eq)]
pub enum TermCommand {
    /// Give the emulator's grid this size.
    ResizeGrid(TermDimensions),
    /// Tell the pseudo-terminal its new size.
    ResizePty(WindowSize),
    /// Drop the cached drawing, so that the next frame is drawn anew.
    Invalidate,
    /// Send these bytes to the child process.
    Write(Vec<u8>),
    /// Move the view by so many lines; positive is towards the history.
    ScrollDisplay(i32),
    /// End the terminal's event loop.
    Shutdown,
}

/// A [`TermCommand`] as a mathematical value.
pub enum CommandView {
    ResizeGrid(TermDimensions),
    ResizePty(WindowSize),
    Invalidate,
    Write(Seq<u8>),
    ScrollDisplay(i32),
    Shutdown,
}

impl View for TermCommand {
    type V = CommandView;

    open spec fn view(&self) -> CommandView {
        match self {
            TermCommand::ResizeGrid(size) => CommandView::ResizeGrid(*size),
            TermCommand::ResizePty(size) => CommandView::ResizePty(*size),
            TermCommand::Invalidate => CommandView::Invalidate,
            TermCommand::Write(bytes) => CommandView::Write(bytes@),
            TermCommand::ScrollDisplay(lines) => CommandView::ScrollDisplay(*lines),
            TermCommand::Shutdown => CommandView::Shutdown,
        }
    }
}

/// The commands of a list, as mathematical values.
pub open spec fn command_views(commands: Seq<TermCommand>) -> Seq<CommandView> {
    commands.map_values(|c: TermCommand| c@)
}

/// What takes a terminal to a size of `cols` by `rows` cells.
pub open spec fn resize_commands(cols: u16, rows: u16) -> Seq<CommandView> {
    seq![
        CommandView::ResizeGrid(TermDimensions { cols, rows }),
        CommandView::ResizePty(window_size_of(cols, rows)),
        CommandView::Invalidate,
    ]
}

/// What moves a terminal's view by `lines`.
pub open spec fn scroll_commands(lines: i32) -> Seq<CommandView> {
    seq![CommandView::ScrollDisplay(lines), CommandView::Invalidate]
}

/// The bytes after which a program takes what comes for pasted text: `ESC [ 200 ~`.
pub open spec fn paste_start() -> Seq<u8> {
    seq![0x1b, 0x5b, 0x32, 0x30, 0x30, 0x7e]
}

/// The bytes that end pasted text: `ESC [ 201 ~`.
pub open spec fn paste_end() -> Seq<u8> {
    seq![0x1b, 0x5b, 0x32, 0x30, 0x31, 0x7e]
}

/// Whether the end marker stands at the front of `s`.
pub open spec fn starts_with_paste_end(s: Seq<u8>) -> bool {
    s.len() >= 6 && s.take(6) == paste_end()
}

/// `s` without its end markers, found from the left and without overlap. What is
/// left is not searched again.
pub open spec fn without_paste_end(s: Seq<u8>) -> Seq<u8>
    decreases s.len(),
{
    if s.len() == 0 {
        seq![]
    } else if starts_with_paste_end(s) {
        without_paste_end(s.skip(6))
    } else {
        seq![s[0]] + without_paste_end(s.skip(1))
    }
}

/// Whether the mode bits of a terminal ask for bracketed paste.
pub open spec fn wants_bracketed_paste(mode: u32) -> bool {
    mode & 0x10 == 0x10
}

/// What pasting `text` sends to a terminal in the mode `mode`: the text without
/// end markers, between the two markers where the program asked for that.
pub open spec fn pasted(text: Seq<char>, mode: u32) -> Seq<u8> {
    let sanitized = without_paste_end(vstd::utf8::encode_utf8(text));
    if wants_bracketed_paste(mode) {
        paste_start() + sanitized + paste_end()
    } else {
        sanitized
    }
}

/// Calls `TermMode::contains` of `alacritty_terminal` on the mode with the bits
/// `mode`. The flag `BRACKETED_PASTE` is the fifth bit, and `contains` says
/// whether all bits of its argument are set; bits that name no mode are no
/// hindrance.
#[verifier::external_body]
fn has_bracketed_paste(mode: u32) -> (bracketed: bool)
    ensures
        bracketed == wants_bracketed_paste(mode),
{
    TermMode::from_bits_retain(mode).contains(TermMode::BRACKETED_PASTE)
}

/// Whether the end marker stands at `at` in `bytes`.
fn paste_end_at(bytes: &[u8], at: usize) -> (found: bool)
    requires
        at < bytes@.len(),
    ensures
        found == starts_with_paste_end(bytes@.skip(at as int)),
{
    let ghost rest = bytes@.skip(at as int);
    if bytes.len() - at < 6 {
        return false;
    }
    let found = bytes[at] == 0x1b && bytes[at + 1] == 0x5b && bytes[at + 2] == 0x32
        && bytes[at + 3] == 0x30 && bytes[at + 4] == 0x31 && bytes[at + 5] == 0x7e;
    proof {
        let head = rest.take(6);
        assert forall|i: int| 0 <= i < 6 implies head[i] == bytes@[at + i] by {}
        assert(head[0] == bytes@[at as int] && head[1] == bytes@[at + 1] && head[2] == bytes@[at + 2]
            && head[3] == bytes@[at + 3] && head[4] == bytes@[at + 4] && head[5] == bytes@[at + 5]);
        let end = paste_end();
        assert(end[0] == 0x1b && end[1] == 0x5b && end[2] == 0x32 && end[3] == 0x30 && end[4] == 0x31
            && end[5] == 0x7e);
        if found {
            assert(head =~= end);
        }
    }
    found
}

/// Takes the end markers out of a text that is about to be pasted.
fn sanitize(bytes: &[u8]) -> (sanitized: Vec<u8>)
    ensures
        sanitized@ == without_paste_end(bytes@),
{
    let mut sanitized: Vec<u8> = Vec::new();
    let mut at: usize = 0;
    assert(bytes@.skip(0) =~= bytes@);
    while at < bytes.len()
        invariant
            at <= bytes@.len(),
            without_paste_end(bytes@) == sanitized@ + without_paste_end(bytes@.skip(at as int)),
        decreases bytes@.len() - at,
    {
        let ghost rest = bytes@.skip(at as int);
        if paste_end_at(bytes, at) {
            assert(rest.skip(6) =~= bytes@.skip(at + 6));
            at = at + 6;
        } else {
            assert(rest[0] == bytes@[at as int]);
            assert(rest.skip(1) =~= bytes@.skip(at + 1));
            let ghost before = sanitized@;
            sanitized.push(bytes[at]);
            assert(before + (seq![rest[0]] + without_paste_end(rest.skip(1))) =~= sanitized@
                + without_paste_end(rest.skip(1)));
            at = at + 1;
        }
    }
    assert(without_paste_end(bytes@.skip(at as int)) =~= seq![]);
    assert(sanitized@ + Seq::<u8>::empty() =~= sanitized@);
    sanitized
}

/// A terminal, as far as its size is concerned.
#[derive(Debug, Clone, Copy, PartialEq, Eq)]
pub struct Terminal {
    /// Columns and rows that were last asked for.
    pub last_size: (u16, u16),
}

impl Terminal {
    /// A terminal that starts with `cols` by `rows` cells.
    pub fn spawn(cols: u16, rows: u16) -> (terminal: Self)
        ensures
            terminal == (Terminal { last_size: (cols, rows) }),
    {
        Terminal { last_size: (cols, rows) }
    }

    /// Drops the cached drawing. For what changes this terminal's content,
    /// selection or scroll offset, and for nothing else.
    pub fn invalidate(&self) -> (command: TermCommand)
        ensures
            command@ == CommandView::Invalidate,
    {
        TermCommand::Invalidate
    }

    /// Sends `data` to the child process.
    pub fn write_input(&self, data: &[u8]) -> (command: TermCommand)
        ensures
            command@ == CommandView::Write(data@),
    {
        TermCommand::Write(vstd::slice::slice_to_vec(data))
    }

    /// Sends `text` to the child process as pasted text. `mode` holds the bits
    /// of the emulator's current mode.
    pub fn paste(&self, text: &str, mode: u32) -> (command: TermCommand)
        ensures
            command@ == CommandView::Write(pasted(text@, mode)),
    {
        let mut sanitized = sanitize(text.as_bytes());
        if has_bracketed_paste(mode) {
            let mut data: Vec<u8> = vec![0x1b, 0x5b, 0x32, 0x30, 0x30, 0x7e];
            let mut end: Vec<u8> = vec![0x1b, 0x5b, 0x32, 0x30, 0x31, 0x7e];
            assert(data@ =~= paste_start());
            assert(end@ =~= paste_end());
            data.append(&mut sanitized);
            data.append(&mut end);
            self.write_input(data.as_slice())
        } else {
            self.write_input(sanitized.as_slice())
        }
    }

    /// Takes the terminal to `cols` by `rows` cells.
    pub fn resize(&mut self, cols: u16, rows: u16) -> (commands: Vec<TermCommand>)
        ensures
            *final(self) == (Terminal { last_size: (cols, rows) }),
            command_views(commands@) == resize_commands(cols, rows),
    {
        self.last_size = (cols, rows);
        let commands = vec![
            TermCommand::ResizeGrid(TermDimensions { cols, rows }),
            TermCommand::ResizePty(window_size(cols, rows)),
            self.invalidate(),
        ];
        assert(command_views(commands@) =~= resize_commands(cols, rows));
        commands
    }

    /// Resizes only where the size differs from the one last asked for, so that
    /// it may be called for every frame.
    pub fn resize_if_changed(&mut self, cols: u16, rows: u16) -> (commands: Vec<TermCommand>)
        ensures
            *final(self) == (Terminal { last_size: (cols, rows) }),
            old(self).last_size == (cols, rows) ==> commands@.len() == 0,
            old(self).last_size != (cols, rows) ==> command_views(commands@) == resize_commands(
                cols,
                rows,
            ),
    {
        if self.last_size.0 != cols || self.last_size.1 != rows {
            self.resize(cols, rows)
        } else {
            Vec::new()
        }
    }

    /// Moves the view by `lines`.
    pub fn scroll(&self, lines: i32) -> (commands: Vec<TermCommand>)
        ensures
            command_views(commands@) == scroll_commands(lines),
    {
        let commands = vec![TermCommand::ScrollDisplay(lines), self.invalidate()];
        assert(command_views(commands@) =~= scroll_commands(lines));
        commands
    }

    /// Ends the terminal.
    pub fn shutdown(&self) -> (command: TermCommand)
        ensures
            command@ == CommandView::Shutdown,
    {
        TermCommand::Shutdown
    }
}

/// Whether a piece of text holds no escape character.
pub open spec fn escape_free(s: Seq<u8>) -> bool {
    forall|i: int| 0 <= i < s.len() ==> (#[trigger] s[i]) != 0x1b
}

/// Pieces of text with an end marker between each two of them.
pub open spec fn joined_by_markers(pieces: Seq<Seq<u8>>) -> Seq<u8>
    decreases pieces.len(),
{
    if pieces.len() == 0 {
        seq![]
    } else if pieces.len() == 1 {
        pieces[0]
    } else {
        pieces[0] + (paste_end() + joined_by_markers(pieces.drop_first()))
    }
}

proof fn lemma_escape_free_head(head: Seq<u8>, tail: Seq<u8>)
    requires
        escape_free(head),
    ensures
        without_paste_end(head + tail) == head + without_paste_end(tail),
    decreases head.len(),
{
    let s = head + tail;
    if head.len() == 0 {
        assert(s =~= tail);
        assert(head + without_paste_end(tail) =~= without_paste_end(tail));
    } else {
        if starts_with_paste_end(s) {
            assert(s.take(6)[0] == s[0]);
            assert(paste_end()[0] == 0x1b);
            assert(head[0] != 0x1b);
        }
        assert(s.skip(1) =~= head.skip(1) + tail);
        assert(escape_free(head.skip(1))) by {
            assert forall|i: int| 0 <= i < head.skip(1).len() implies (#[trigger] head.skip(1)[i])
                != 0x1b by {
                assert(head[i + 1] != 0x1b);
            }
        }
        lemma_escape_free_head(head.skip(1), tail);
        assert(seq![head[0]] + (head.skip(1) + without_paste_end(tail)) =~= head
            + without_paste_end(tail));
    }
}

/// Text without escape characters is pasted as it is.
pub proof fn law_plain_text_is_pasted_whole(text: Seq<char>, mode: u32)
    requires
        escape_free(vstd::utf8::encode_utf8(text)),
    ensures
        pasted(text, mode) == (if wants_bracketed_paste(mode) {
            paste_start() + vstd::utf8::encode_utf8(text) + paste_end()
        } else {
            vstd::utf8::encode_utf8(text)
        }),
{
    let bytes = vstd::utf8::encode_utf8(text);
    lemma_escape_free_head(bytes, seq![]);
    assert(bytes + Seq::<u8>::empty() =~= bytes);
    assert(bytes + without_paste_end(seq![]) =~= bytes);
}

/// Of pieces of plain text with end markers between them, just the markers are
/// taken out.
pub proof fn law_end_markers_are_taken_out(pieces: Seq<Seq<u8>>)
    requires
        forall|i: int| 0 <= i < pieces.len() ==> escape_free(#[trigger] pieces[i]),
    ensures
        without_paste_end(joined_by_markers(pieces)) == pieces.flatten(),
    decreases pieces.len(),
{
    if pieces.len() == 1 {
        lemma_escape_free_head(pieces[0], seq![]);
        assert(pieces[0] + Seq::<u8>::empty() =~= pieces[0]);
        assert(pieces[0] + without_paste_end(seq![]) =~= pieces[0]);
        pieces.lemma_flatten_one_element();
    } else if pieces.len() > 1 {
        let rest = pieces.drop_first();
        let tail = paste_end() + joined_by_markers(rest);
        assert forall|i: int| 0 <= i < rest.len() implies escape_free(#[trigger] rest[i]) by {
            assert(rest[i] == pieces[i + 1]);
        }
        law_end_markers_are_taken_out(rest);
        assert(tail.take(6) =~= paste_end());
        assert(tail.skip(6) =~= joined_by_markers(rest));
        lemma_escape_free_head(pieces[0], tail);
    }
}

/// The shells to try, best first, given what the environment names as the
/// user's shell. An unset variable counts as an empty one.
pub open spec fn candidate_shells(from_env: Option<Seq<char>>) -> Seq<Seq<char>> {
    seq![
        match from_env {
            Some(shell) => shell,
            None => seq![],
        },
        "/bin/bash"@,
        "/bin/sh"@,
    ]
}

/// The first candidate from position `i` on that is named and exists, or else
/// `/bin/sh`.
pub open spec fn shell_choice(candidates: Seq<Seq<char>>, exists: Seq<bool>, i: int) -> Seq<char>
    decreases candidates.len() - i,
{
    if i < 0 || i >= candidates.len() {
        "/bin/sh"@
    } else if candidates[i].len() > 0 && exists[i] {
        candidates[i]
    } else {
        shell_choice(candidates, exists, i + 1)
    }
}

/// The strings of a list, as character sequences.
pub open spec fn texts(strings: Seq<String>) -> Seq<Seq<char>> {
    strings.map_values(|s: String| s@)
}

/// The paths of the shells to try, best first. `from_env` is the value of the
/// environment variable `SHELL`, if it is set.
pub fn shell_candidates(from_env: Option<String>) -> (candidates: Vec<String>)
    ensures
        texts(candidates@) == candidate_shells(
            match from_env {
                Some(shell) => Some(shell@),
                None => None,
            },
        ),
{
    let first = match from_env {
        Some(shell) => shell,
        None => String::new(),
    };
    let candidates = vec![first, "/bin/bash".to_string(), "/bin/sh".to_string()];
    assert(texts(candidates@) =~= candidate_shells(
        match from_env {
            Some(shell) => Some(shell@),
            None => None,
        },
    ));
    candidates
}

/// The shell to start: the first candidate that is named and exists. `exists`
/// says of each candidate whether there is such a file.
pub fn default_shell(candidates: &Vec<String>, exists: &Vec<bool>) -> (shell: String)
    requires
        candidates@.len() == exists@.len(),
    ensures
        shell@ == shell_choice(texts(candidates@), exists@, 0),
{
    for i in 0..candidates.len()
        invariant
            candidates@.len() == exists@.len(),
            shell_choice(texts(candidates@), exists@, 0) == shell_choice(
                texts(candidates@),
                exists@,
                i as int,
            ),
    {
        assert(texts(candidates@)[i as int] == candidates@[i as int]@);
        if !candidates[i].as_str().is_empty() && exists[i] {
            return candidates[i].clone();
        }
    }
    "/bin/sh".to_string()
}

/// How the child shell of a new terminal is started.
#[derive(Debug, Clone, PartialEq, Eq)]
pub struct PtyOptions {
    /// The shell, and the arguments it is given.
    pub shell: String,
    pub shell_args: Vec<String>,
    /// Where the shell starts; the applet's own directory where this is `None`.
    pub working_directory: Option<String>,
    /// Whether output is still read once the child has gone.
    pub drain_on_exit: bool,
    /// Variables added to the shell's environment.
    pub env: Vec<(String, String)>,
    pub window_size: WindowSize,
    pub scrolling_history: usize,
}

/// The options for a terminal of `cols` by `rows` cells that runs `shell`. The
/// shell is told which terminal it runs in, so that it and its tools know that
/// colours are understood.
pub fn pty_options(shell: String, cols: u16, rows: u16) -> (options: PtyOptions)
    ensures
        options.shell@ == shell@,
        options.shell_args@.len() == 0,
        options.working_directory is None,
        !options.drain_on_exit,
        options.env@.len() == 2,
        options.env@[0].0@ == "TERM"@,
        options.env@[0].1@ == "xterm-256color"@,
        options.env@[1].0@ == "COLORTERM"@,
        options.env@[1].1@ == "truecolor"@,
        options.window_size == window_size_of(cols, rows),
        options.scrolling_history == SCROLLING_HISTORY,
{
    PtyOptions {
        shell,
        shell_args: Vec::new(),
        working_directory: None,
        drain_on_exit: false,
        env: vec![
            ("TERM".to_string(), "xterm-256color".to_string()),
            ("COLORTERM".to_string(), "truecolor".to_string()),
        ],
        window_size: window_size(cols, rows),
        scrolling_history: SCROLLING_HISTORY,
    }
}

} // verus!
