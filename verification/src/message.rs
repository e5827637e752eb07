//! What happens to the applet.

use crate::keys::{Key, Modifiers};
use crate::pane::{PaneId, SplitDirection};
use vstd::prelude::*;

verus! {

/// Names one surface of the desktop.
pub type WindowId = u64;

/// Something that happened.
#[derive(Debug, Clone)]
pub enum Message {
    /// Show the drop-down, or hide it.
    TogglePopup,
    TogglePreferences,
    /// Text was entered as the colour of `user@host`.
    UserHostColorInput(String),
    /// Text was entered as the colour of the working directory.
    DirectoryColorInput(String),
    SurfaceClosed(WindowId),
    SurfaceUnfocused(WindowId),
    TogglePin,
    /// A surface has a new width and height in pixels.
    Resized(WindowId, u32, u32),
    /// A terminal has something new to show.
    TerminalUpdated(PaneId),
    /// A key, the modifiers held down, and the text that the key types.
    KeyPressed(Key, Modifiers, Option<String>),
    SplitPane(SplitDirection),
    ClosePane(PaneId),
    SelectPane(PaneId),
    NewTab,
    CloseTab(usize),
    SelectTab(usize),
    CycleTabNext,
    CycleTabPrev,
    CyclePaneNext,
    CyclePanePrev,
    CopySelection,
    /// The selected text that `CopySelection` asked for, if any was selected.
    SelectionRead(Option<String>),
    PasteClipboard,
    /// The clipboard's text that `PasteClipboard` asked for, if it held any.
    ClipboardPasted(Option<String>),
    /// The wheel moved over a pane by so many whole lines.
    PaneScroll(PaneId, i32),
}

} // verus!
