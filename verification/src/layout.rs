//! From pixels to cells.

use crate::terminal::{CELL_HEIGHT, CELL_WIDTH};
use vstd::prelude::*;

verus! {

/// Height of the tab bar in pixels.
pub const TAB_BAR_HEIGHT: u32 = 32;

/// `n`, but at least one and at most what sixteen bits hold.
pub open spec fn to_cells(n: int) -> u16 {
    if n < 1 {
        1
    } else if n > u16::MAX {
        u16::MAX
    } else {
        n as u16
    }
}

/// The columns and rows of whole cells that fit a window of `width` by `height`
/// pixels below the tab bar: at least one of each.
pub open spec fn window_cells(width: u32, height: u32) -> (u16, u16) {
    (to_cells(width as int / CELL_WIDTH as int), to_cells((height - TAB_BAR_HEIGHT) / CELL_HEIGHT as int))
}

/// One of `parts` equal parts of `total` cells, of at least one cell.
pub open spec fn share(total: u16, parts: int) -> u16 {
    to_cells(total as int / parts)
}

pub(crate) fn clamp_cells(n: u32) -> (cells: u16)
    ensures
        cells == to_cells(n as int),
{
    if n < 1 {
        1
    } else if n > 0xffff {
        0xffff
    } else {
        n as u16
    }
}

pub fn cols_rows(width: u32, height: u32) -> (cells: (u16, u16))
    ensures
        cells == window_cells(width, height),
        cells.0 >= 1,
        cells.1 >= 1,
{
    let usable_height: u32 = if height < TAB_BAR_HEIGHT + CELL_HEIGHT as u32 {
        CELL_HEIGHT as u32
    } else {
        height - TAB_BAR_HEIGHT
    };
    (clamp_cells(width / CELL_WIDTH as u32), clamp_cells(usable_height / CELL_HEIGHT as u32))
}

/// One of `parts` equal parts of `total` cells, of at least one cell.
pub(crate) fn share_of(total: u16, parts: usize) -> (cells: u16)
    requires
        1 <= parts <= 0xffff,
    ensures
        cells == share(total, parts as int),
{
    let cells: u16 = total / parts as u16;
    assert(cells == total as int / parts as int);
    if cells < 1 {
        1
    } else {
        cells
    }
}

/// The equal parts of a length that has a cell for each of them fit into it.
pub proof fn law_shares_fit(total: u16, parts: int)
    requires
        1 <= parts <= total,
    ensures
        parts * share(total, parts) <= total,
        total < parts * (share(total, parts) + 1),
{
    let q = total as int / parts;
    vstd::arithmetic::div_mod::lemma_fundamental_div_mod(total as int, parts);
    vstd::arithmetic::div_mod::lemma_div_non_zero(total as int, parts);
    assert(q <= total) by (nonlinear_arith)
        requires
            parts >= 1,
            q == total as int / parts,
    ;
    assert(parts * (q + 1) == parts * q + parts) by (nonlinear_arith);
}

} // verus!
