use drop_term::config::{load, AppConfig};
use drop_term::events::{term_event_step, DrainStep, TermSignal};
use drop_term::layout::cols_rows;
use drop_term::message::Message;
use drop_term::terminal::{
    default_shell, pty_options, shell_candidates, window_size, TermCommand, TermDimensions,
    Terminal, WindowSize,
};

const BRACKETED: u32 = 1 << 4;

fn written(command: TermCommand) -> Vec<u8> {
    match command {
        TermCommand::Write(bytes) => bytes,
        other => panic!("unexpected {:?}", other),
    }
}

#[test]
fn paste_is_bracketed_on_demand() {
    let terminal = Terminal::spawn(80, 24);
    assert_eq!(written(terminal.paste("hé", 0)), "hé".as_bytes().to_vec());
    assert_eq!(written(terminal.paste("hé", BRACKETED)), "\x1b[200~hé\x1b[201~".as_bytes().to_vec());
    assert_eq!(written(terminal.paste("x", u32::MAX)), b"\x1b[200~x\x1b[201~".to_vec());
    assert_eq!(written(terminal.paste("x", !BRACKETED)), b"x".to_vec());
    assert_eq!(written(terminal.paste("", BRACKETED)), b"\x1b[200~\x1b[201~".to_vec());
}

#[test]
fn paste_drops_end_markers_once() {
    let terminal = Terminal::spawn(80, 24);
    assert_eq!(written(terminal.paste("a\x1b[201~b\x1b[201~", 0)), b"ab".to_vec());
    assert_eq!(written(terminal.paste("\x1b[201", 0)), b"\x1b[201".to_vec());
    assert_eq!(written(terminal.paste("\x1b[200~", 0)), b"\x1b[200~".to_vec());
    assert_eq!(written(terminal.paste("\x1b[20\x1b[201~1~", 0)), b"\x1b[201~".to_vec());
}

#[test]
fn resize_happens_only_on_change() {
    let mut terminal = Terminal::spawn(80, 24);
    assert!(terminal.resize_if_changed(80, 24).is_empty());
    let commands = terminal.resize_if_changed(80, 25);
    assert_eq!(
        commands,
        vec![
            TermCommand::ResizeGrid(TermDimensions { cols: 80, rows: 25 }),
            TermCommand::ResizePty(WindowSize {
                num_lines: 25,
                num_cols: 80,
                cell_width: 9,
                cell_height: 18,
            }),
            TermCommand::Invalidate,
        ]
    );
    assert_eq!(terminal.last_size, (80, 25));
    assert!(terminal.resize_if_changed(80, 25).is_empty());
    assert_eq!(terminal.resize(80, 25).len(), 3);
}

#[test]
fn terminal_commands() {
    let terminal = Terminal::spawn(80, 24);
    assert_eq!(terminal.scroll(-3), vec![TermCommand::ScrollDisplay(-3), TermCommand::Invalidate]);
    assert_eq!(terminal.invalidate(), TermCommand::Invalidate);
    assert_eq!(terminal.shutdown(), TermCommand::Shutdown);
    assert_eq!(terminal.write_input(b"ls"), TermCommand::Write(b"ls".to_vec()));
}

#[test]
fn dimensions_of_a_fresh_grid() {
    let size = TermDimensions { cols: 80, rows: 24 };
    assert_eq!((size.columns(), size.screen_lines(), size.total_lines()), (80, 24, 24));
    assert_eq!(
        window_size(80, 24),
        WindowSize { num_lines: 24, num_cols: 80, cell_width: 9, cell_height: 18 }
    );
}

#[test]
fn shell_is_the_first_that_exists() {
    let candidates = shell_candidates(Some("/usr/bin/fish".to_string()));
    assert_eq!(candidates, vec!["/usr/bin/fish", "/bin/bash", "/bin/sh"]);
    assert_eq!(default_shell(&candidates, &vec![true, true, true]), "/usr/bin/fish");
    assert_eq!(default_shell(&candidates, &vec![false, true, true]), "/bin/bash");
    assert_eq!(default_shell(&candidates, &vec![false, false, true]), "/bin/sh");
    assert_eq!(default_shell(&candidates, &vec![false, false, false]), "/bin/sh");
    let unset = shell_candidates(None);
    assert_eq!(unset[0], "");
    assert_eq!(default_shell(&unset, &vec![true, true, true]), "/bin/bash");
}

#[test]
fn child_knows_its_terminal() {
    let options = pty_options("/bin/sh".to_string(), 80, 24);
    assert_eq!(options.shell, "/bin/sh");
    assert!(options.shell_args.is_empty());
    assert_eq!(options.working_directory, None);
    assert!(!options.drain_on_exit);
    assert_eq!(
        options.env,
        vec![
            ("TERM".to_string(), "xterm-256color".to_string()),
            ("COLORTERM".to_string(), "truecolor".to_string()),
        ]
    );
    assert_eq!(options.window_size, window_size(80, 24));
    assert_eq!(options.scrolling_history, 100_000);
}

#[test]
fn cells_of_a_window() {
    assert_eq!(cols_rows(900, 500), (100, 26));
    assert_eq!(cols_rows(0, 0), (1, 1));
    assert_eq!(cols_rows(8, 49), (1, 1));
    assert_eq!(cols_rows(17, 50), (1, 1));
    assert_eq!(cols_rows(18, 68), (2, 2));
    assert_eq!(cols_rows(u32::MAX, u32::MAX), (65535, 65535));
}

#[test]
fn cells_agree_with_floating_point() {
    let float = |width: u32, height: u32| {
        let usable_height = (height as f32 - 32.0).max(18.0);
        let cols = ((width as f32 / 9.0) as u16).max(1);
        let rows = ((usable_height / 18.0) as u16).max(1);
        (cols, rows)
    };
    let mut n: u32 = 0;
    while n < 1_300_000 {
        assert_eq!(cols_rows(n, n), float(n, n));
        n += 1;
    }
    for n in [16_777_215, 16_777_216, 16_777_217, 100_000_007, u32::MAX - 1, u32::MAX] {
        assert_eq!(cols_rows(n, n), float(n, n));
    }
}

#[test]
fn stored_settings_are_enlarged() {
    let small = AppConfig {
        window_width: 100,
        window_height: 299,
        user_host_color: (1, 2, 3),
        directory_color: (4, 5, 6),
    };
    let (loaded, store) = load(Some(small));
    assert_eq!(loaded, AppConfig { window_width: 500, window_height: 300, ..small });
    assert!(!store);
    assert_eq!(load(Some(loaded)), (loaded, false));
    let large = AppConfig { window_width: 501, window_height: 3000, ..small };
    assert_eq!(load(Some(large)), (large, false));
}

#[test]
fn missing_settings_are_written() {
    let (loaded, store) = load(None);
    assert!(store);
    assert_eq!(
        loaded,
        AppConfig {
            window_width: 900,
            window_height: 500,
            user_host_color: (0, 205, 0),
            directory_color: (0, 0, 238),
        }
    );
    assert_eq!(load(Some(loaded)), (loaded, false));
}

/// The message that a queue makes, and what it leaves of the queue.
fn take(pane: u64, queue: &[TermSignal]) -> Option<(Message, &[TermSignal])> {
    let mut draining = false;
    let mut rest = queue;
    loop {
        let next = rest.first().copied();
        rest = rest.get(1..).unwrap_or(rest);
        match term_event_step(pane, draining, next) {
            DrainStep::LookAgain => draining = true,
            DrainStep::Emit(message) => return Some((message, rest)),
            DrainStep::End => return None,
        }
    }
}

fn drain(pane: u64, queue: &[TermSignal]) -> Option<Message> {
    take(pane, queue).map(|(message, _)| message)
}

#[test]
fn reports_make_one_message() {
    let wakeup = TermSignal::Wakeup;
    let exit = TermSignal::Exit;
    assert!(matches!(drain(7, &[wakeup]), Some(Message::TerminalUpdated(7))));
    assert!(matches!(drain(7, &[wakeup, wakeup, wakeup]), Some(Message::TerminalUpdated(7))));
    assert!(matches!(drain(7, &[exit]), Some(Message::ClosePane(7))));
    assert!(matches!(drain(7, &[wakeup, wakeup, exit]), Some(Message::ClosePane(7))));
    assert!(drain(7, &[]).is_none());
}

#[test]
fn reports_behind_the_end_are_left() {
    let wakeup = TermSignal::Wakeup;
    let exit = TermSignal::Exit;
    let queue = [wakeup, exit, wakeup, exit];
    let (message, rest) = take(7, &queue).unwrap();
    assert!(matches!(message, Message::ClosePane(7)));
    assert_eq!(rest, &queue[2..]);
    let queue = [wakeup, wakeup];
    let (message, rest) = take(7, &queue).unwrap();
    assert!(matches!(message, Message::TerminalUpdated(7)));
    assert!(rest.is_empty());
}
