//! The grid of panes in a tab: columns side by side, each a stack of panes.
//!
//! Columns can have different lengths: a vertical split lengthens only the
//! column that the focused pane stands in.

use crate::pane::PaneId;
use vstd::prelude::*;

verus! {

/// The most columns that a tab can have.
pub const MAX_GRID_COLS: usize = 4;

/// The most panes that one column can hold.
pub const MAX_GRID_ROWS: usize = 4;

/// Whether the pane `id` is the one in column `c` and row `r`.
pub open spec fn at(columns: Seq<Seq<PaneId>>, c: int, r: int, id: PaneId) -> bool {
    0 <= c < columns.len() && 0 <= r < columns[c].len() && columns[c][r] == id
}

/// Whether the pane `id` is anywhere in the grid.
pub open spec fn in_grid(columns: Seq<Seq<PaneId>>, id: PaneId) -> bool {
    exists|c: int, r: int| at(columns, c, r, id)
}

/// The column and the row of a pane of the grid.
pub open spec fn location(columns: Seq<Seq<PaneId>>, id: PaneId) -> (int, int) {
    choose|c: int, r: int| at(columns, c, r, id)
}

/// No pane is in two places.
pub open spec fn distinct(columns: Seq<Seq<PaneId>>) -> bool {
    forall|c: int, r: int, d: int, s: int, id: PaneId|
        at(columns, c, r, id) && at(columns, d, s, id) ==> c == d && r == s
}

/// A grid that a tab can have: there is a column, no column is empty, neither
/// the columns nor the panes of a column are too many, and no pane is in two
/// places.
pub open spec fn grid_ok(columns: Seq<Seq<PaneId>>) -> bool {
    &&& 1 <= columns.len() <= MAX_GRID_COLS
    &&& forall|c: int| 0 <= c < columns.len() ==> 1 <= (#[trigger] columns[c]).len() <= MAX_GRID_ROWS
    &&& distinct(columns)
}

/// The grid with the pane `id` in a new column to the right.
pub open spec fn with_column(columns: Seq<Seq<PaneId>>, id: PaneId) -> Seq<Seq<PaneId>> {
    columns.push(seq![id])
}

/// The grid with the pane `id` right below the one in column `c` and row `r`.
pub open spec fn with_row(columns: Seq<Seq<PaneId>>, c: int, r: int, id: PaneId) -> Seq<
    Seq<PaneId>,
> {
    columns.update(c, columns[c].insert(r + 1, id))
}

/// The grid without the pane `id`; a column that this empties goes too.
pub open spec fn without(columns: Seq<Seq<PaneId>>, id: PaneId) -> Seq<Seq<PaneId>> {
    let (c, r) = location(columns, id);
    if columns[c].len() == 1 {
        columns.remove(c)
    } else {
        columns.update(c, columns[c].remove(r))
    }
}

/// In a grid without repetitions, a pane is where it was found.
pub proof fn lemma_location(columns: Seq<Seq<PaneId>>, c: int, r: int, id: PaneId)
    requires
        distinct(columns),
        at(columns, c, r, id),
    ensures
        in_grid(columns, id),
        location(columns, id) == (c, r),
{
    let (d, s) = location(columns, id);
    assert(at(columns, d, s, id));
}

/// The panes column by column are those of the grid.
pub proof fn lemma_flatten_members(columns: Seq<Seq<PaneId>>)
    ensures
        forall|id: PaneId| #[trigger] columns.flatten().contains(id) <==> in_grid(columns, id),
    decreases columns.len(),
{
    if columns.len() > 0 {
        let rest = columns.drop_first();
        let head = columns.first();
        lemma_flatten_members(rest);
        assert forall|id: PaneId| #[trigger] columns.flatten().contains(id) <==> in_grid(
            columns,
            id,
        ) by {
            let flat = columns.flatten();
            assert(flat == head + rest.flatten());
            if flat.contains(id) {
                let i = choose|i: int| 0 <= i < flat.len() && flat[i] == id;
                if i < head.len() {
                    assert(at(columns, 0, i, id));
                } else {
                    assert(rest.flatten()[i - head.len()] == id);
                    assert(rest.flatten().contains(id));
                    let (c, r) = location(rest, id);
                    assert(at(rest, c, r, id));
                    assert(at(columns, c + 1, r, id));
                }
            }
            if in_grid(columns, id) {
                let (c, r) = location(columns, id);
                assert(at(columns, c, r, id));
                if c == 0 {
                    assert(flat[r] == id);
                } else {
                    assert(at(rest, c - 1, r, id));
                    assert(rest.flatten().contains(id));
                    let j = choose|j: int| 0 <= j < rest.flatten().len() && rest.flatten()[j] == id;
                    assert(flat[head.len() + j] == id);
                }
            }
        }
    } else {
        assert forall|id: PaneId| !(#[trigger] in_grid(columns, id)) by {
            if in_grid(columns, id) {
                let (c, r) = location(columns, id);
                assert(at(columns, c, r, id));
            }
        }
    }
}

/// Column by column, no pane comes twice.
pub proof fn lemma_flatten_distinct(columns: Seq<Seq<PaneId>>)
    requires
        distinct(columns),
    ensures
        columns.flatten().no_duplicates(),
    decreases columns.len(),
{
    if columns.len() > 0 {
        let rest = columns.drop_first();
        let head = columns.first();
        let flat = columns.flatten();
        assert forall|c: int, r: int, d: int, s: int, id: PaneId|
            at(rest, c, r, id) && at(rest, d, s, id) implies c == d && r == s by {
            assert(at(columns, c + 1, r, id));
            assert(at(columns, d + 1, s, id));
        }
        lemma_flatten_distinct(rest);
        lemma_flatten_members(rest);
        assert forall|i: int, j: int|
            0 <= i < flat.len() && 0 <= j < flat.len() && i != j implies flat[i] != flat[j] by {
            if i < head.len() && j < head.len() {
                assert(at(columns, 0, i, flat[i]));
                assert(at(columns, 0, j, flat[j]));
            } else if i >= head.len() && j >= head.len() {
                assert(flat[i] == rest.flatten()[i - head.len()]);
                assert(flat[j] == rest.flatten()[j - head.len()]);
            } else {
                let (lo, hi) = if i < j {
                    (i, j)
                } else {
                    (j, i)
                };
                assert(at(columns, 0, lo, flat[lo]));
                assert(flat[hi] == rest.flatten()[hi - head.len()]);
                assert(rest.flatten().contains(flat[hi]));
                let (c, r) = location(rest, flat[hi]);
                assert(at(rest, c, r, flat[hi]));
                assert(at(columns, c + 1, r, flat[hi]));
            }
        }
    }
}

/// Column by column, the first pane is the one at the top left.
pub proof fn lemma_flatten_first(columns: Seq<Seq<PaneId>>)
    requires
        grid_ok(columns),
    ensures
        columns.flatten().len() >= 1,
        columns.flatten()[0] == columns[0][0],
        in_grid(columns, columns[0][0]),
{
    assert(columns.flatten() == columns.first() + columns.drop_first().flatten());
    assert(at(columns, 0, 0, columns[0][0]));
}

/// A grid with one pane only is one column of one pane.
pub proof fn lemma_single(columns: Seq<Seq<PaneId>>)
    requires
        grid_ok(columns),
    ensures
        columns.flatten().len() <= 1 <==> columns.len() == 1 && columns[0].len() == 1,
{
    assert(columns.flatten() == columns.first() + columns.drop_first().flatten());
    if columns.len() > 1 {
        let rest = columns.drop_first();
        assert(rest[0] == columns[1]);
        assert(rest.flatten() == rest.first() + rest.drop_first().flatten());
    } else {
        assert(columns.drop_first().flatten().len() == 0);
    }
}

/// A new column keeps the grid in order and adds just its pane.
pub proof fn lemma_with_column(columns: Seq<Seq<PaneId>>, id: PaneId)
    requires
        grid_ok(columns),
        columns.len() < MAX_GRID_COLS,
        !in_grid(columns, id),
    ensures
        grid_ok(with_column(columns, id)),
        forall|x: PaneId| #[trigger]
            in_grid(with_column(columns, id), x) <==> in_grid(columns, x) || x == id,
{
    let new = with_column(columns, id);
    assert forall|c: int, r: int, x: PaneId| #[trigger] at(new, c, r, x) implies (at(
        columns,
        c,
        r,
        x,
    ) || (c == columns.len() && r == 0 && x == id)) by {}
    assert forall|c: int, r: int, d: int, s: int, x: PaneId|
        at(new, c, r, x) && at(new, d, s, x) implies c == d && r == s by {
        assert(at(columns, c, r, x) ==> in_grid(columns, x));
        assert(at(columns, d, s, x) ==> in_grid(columns, x));
    }
    assert forall|x: PaneId| #[trigger] in_grid(new, x) <==> in_grid(columns, x) || x == id by {
        if in_grid(new, x) {
            let (c, r) = location(new, x);
            assert(at(new, c, r, x));
        }
        if in_grid(columns, x) {
            let (c, r) = location(columns, x);
            assert(at(columns, c, r, x));
            assert(at(new, c, r, x));
        }
        assert(at(new, columns.len() as int, 0, id));
    }
}

/// A new row keeps the grid in order and adds just its pane.
pub proof fn lemma_with_row(columns: Seq<Seq<PaneId>>, c: int, r: int, id: PaneId)
    requires
        grid_ok(columns),
        0 <= c < columns.len(),
        0 <= r < columns[c].len() < MAX_GRID_ROWS,
        !in_grid(columns, id),
    ensures
        grid_ok(with_row(columns, c, r, id)),
        forall|x: PaneId| #[trigger]
            in_grid(with_row(columns, c, r, id), x) <==> in_grid(columns, x) || x == id,
{
    let new = with_row(columns, c, r, id);
    // Where a place of the new grid was before.
    let back = |d: int, s: int| if d == c && s > r + 1 {
        s - 1
    } else {
        s
    };
    assert forall|d: int, s: int, x: PaneId| #[trigger] at(new, d, s, x) implies (at(
        columns,
        d,
        back(d, s),
        x,
    ) && !(d == c && s == r + 1)) || (d == c && s == r + 1 && x == id) by {}
    assert forall|d: int, s: int, e: int, t: int, x: PaneId|
        at(new, d, s, x) && at(new, e, t, x) implies d == e && s == t by {
        assert(at(columns, d, back(d, s), x) ==> in_grid(columns, x));
        assert(at(columns, e, back(e, t), x) ==> in_grid(columns, x));
    }
    assert forall|x: PaneId| #[trigger] in_grid(new, x) <==> in_grid(columns, x) || x == id by {
        if in_grid(new, x) {
            let (d, s) = location(new, x);
            assert(at(new, d, s, x));
        }
        if in_grid(columns, x) {
            let (d, s) = location(columns, x);
            assert(at(columns, d, s, x));
            if d == c && s > r {
                assert(at(new, d, s + 1, x));
            } else {
                assert(at(new, d, s, x));
            }
        }
        assert(at(new, c, r + 1, id));
    }
    assert forall|d: int| 0 <= d < new.len() implies 1 <= (#[trigger] new[d]).len()
        <= MAX_GRID_ROWS by {
        assert(1 <= columns[d].len() <= MAX_GRID_ROWS);
    }
}

/// Taking a pane out of a grid that has others keeps it in order and takes out
/// just that pane.
pub proof fn lemma_without(columns: Seq<Seq<PaneId>>, id: PaneId)
    requires
        grid_ok(columns),
        in_grid(columns, id),
        columns.flatten().len() > 1,
    ensures
        grid_ok(without(columns, id)),
        forall|x: PaneId| #[trigger]
            in_grid(without(columns, id), x) <==> in_grid(columns, x) && x != id,
{
    lemma_single(columns);
    let new = without(columns, id);
    let (c, r) = location(columns, id);
    assert(at(columns, c, r, id));
    let gone = columns[c].len() == 1;
    // Where a place of the new grid was before.
    let back_column = |d: int| if gone && d >= c {
        d + 1
    } else {
        d
    };
    let back_row = |d: int, s: int| if !gone && d == c && s >= r {
        s + 1
    } else {
        s
    };
    assert forall|d: int, s: int, x: PaneId| #[trigger] at(new, d, s, x) implies at(
        columns,
        back_column(d),
        back_row(d, s),
        x,
    ) && x != id by {
        assert(at(columns, back_column(d), back_row(d, s), x));
    }
    assert forall|d: int, s: int, e: int, t: int, x: PaneId|
        at(new, d, s, x) && at(new, e, t, x) implies d == e && s == t by {
        assert(at(columns, back_column(d), back_row(d, s), x));
        assert(at(columns, back_column(e), back_row(e, t), x));
    }
    assert forall|x: PaneId| #[trigger] in_grid(new, x) <==> in_grid(columns, x) && x != id by {
        if in_grid(new, x) {
            let (d, s) = location(new, x);
            assert(at(new, d, s, x));
            assert(at(columns, back_column(d), back_row(d, s), x));
        }
        if in_grid(columns, x) && x != id {
            let (d, s) = location(columns, x);
            assert(at(columns, d, s, x));
            let nd = if gone && d > c {
                d - 1
            } else {
                d
            };
            let ns = if !gone && d == c && s > r {
                s - 1
            } else {
                s
            };
            assert(at(new, nd, ns, x));
        }
    }
    assert forall|d: int| 0 <= d < new.len() implies 1 <= (#[trigger] new[d]).len()
        <= MAX_GRID_ROWS by {
        assert(1 <= columns[back_column(d)].len() <= MAX_GRID_ROWS);
    }
}

/// Closing the pane of a horizontal split gives the grid back as it was.
pub proof fn law_close_undoes_horizontal_split(columns: Seq<Seq<PaneId>>, id: PaneId)
    requires
        grid_ok(columns),
        columns.len() < MAX_GRID_COLS,
        !in_grid(columns, id),
    ensures
        without(with_column(columns, id), id) == columns,
{
    let new = with_column(columns, id);
    lemma_with_column(columns, id);
    lemma_location(new, columns.len() as int, 0, id);
    assert(without(new, id) =~= columns);
}

/// Closing the pane of a vertical split gives the grid back as it was.
pub proof fn law_close_undoes_vertical_split(
    columns: Seq<Seq<PaneId>>,
    c: int,
    r: int,
    id: PaneId,
)
    requires
        grid_ok(columns),
        0 <= c < columns.len(),
        0 <= r < columns[c].len() < MAX_GRID_ROWS,
        !in_grid(columns, id),
    ensures
        without(with_row(columns, c, r, id), id) == columns,
{
    let new = with_row(columns, c, r, id);
    lemma_with_row(columns, c, r, id);
    assert(at(new, c, r + 1, id));
    lemma_location(new, c, r + 1, id);
    assert(new[c].remove(r + 1) =~= columns[c]);
    assert(without(new, id) =~= columns);
}

} // verus!
