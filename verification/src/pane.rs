//! Identity and splitting of terminal panes.

use vstd::prelude::*;

verus! {

/// Names one pane for as long as the applet runs.
pub type PaneId = u64;

/// Which way a pane is split.
#[derive(Debug, Clone, Copy, PartialEq, Eq, Structural)]
pub enum SplitDirection {
    /// The new pane opens a column of its own, to the right of all others.
    Horizontal,
    /// The new pane goes below the focused one, in the same column.
    Vertical,
}

} // verus!
