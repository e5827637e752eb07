# drop-term

A drop-down terminal applet for the COSMIC desktop. It hangs from the top of the
screen, holds tabs of split panes, and is shown and hidden from the panel, with
`F12`, or with a desktop-wide shortcut that runs `pkill -SIGUSR1 -x drop-term`.

The library in `src/` decides everything that can be decided without the desktop,
and Verus proves that it does so as its contracts say:

| Module | What it holds |
|---|---|
| `state`, `tab`, `grid` | the applet's state as a mathematical value, and what each message makes of it |
| `app` | the applet itself: takes messages, answers with actions |
| `message`, `action` | what happens to the applet, and what it asks for |
| `keys` | shortcuts, and the bytes that other keys send to the shell |
| `terminal`, `events` | what is asked of a terminal, pasting, and what its reports lead to |
| `layout`, `config` | sizes in cells, and the stored settings |
| `preferences`, `view` | the preferences panel, the tab bar and the pane grid |
| `term_view`, `frame` | colours, selection by mouse, and the layout of a frame |
| `laws` | what holds of the applet whatever happens to it |

`app/` puts it on the desktop: windows, pseudo-terminals, the configuration file,
translated texts, and everything that is counted in pixels.

## Keys

Keys that are not listed here go to the shell.

| Shortcut | Action |
|---|---|
| `Ctrl+Shift+O` | Split pane horizontally |
| `Ctrl+Shift+E` | Split pane vertically |
| `Ctrl+Shift+Q` | Close active pane |
| `Ctrl+Shift+Z` | Next pane |
| `Ctrl+Shift+X` | Previous pane |
| `Ctrl+Shift+T` | New tab |
| `Ctrl+Shift+W` | Close tab |
| `Ctrl+Tab` | Next tab |
| `Ctrl+Shift+Tab` | Previous tab |
| `Ctrl+Shift+P` | Toggle pin |
| `Ctrl+Shift+C` | Copy selection |
| `Ctrl+Shift+V` | Paste |
| `F12` | Hide the drop-down |
