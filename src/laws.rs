//! Properties of the game that hold across operations.
use vstd::prelude::*;

use crate::board::{
    at, column_full, fresh_view, in_grid, interior, is_landing, landing_row, lemma_landing_unique,
    place_at, playable_column, valid, BoardView,
};
use crate::cell::{is_piece, BoardLocation, GameResult};
use crate::win::{judge, run, wins_at};

verus! {

/// Column `col` holds exactly `k` pieces, stacked on the bottom wall.
pub open spec fn stacked(v: BoardView, col: int, k: int) -> bool {
    forall|r: int|
        0 <= r < v.rows - 1 ==> (#[trigger] at(v, r, col) != BoardLocation::Empty <==> r >= v.rows
            - 1 - k)
}

/// Every playable column of a new board is empty.
pub proof fn lemma_new_columns_empty(rows: int, columns: int, col: int)
    requires
        0 <= rows,
        0 <= columns,
        playable_column(fresh_view(rows, columns), col),
    ensures
        stacked(fresh_view(rows, columns), col, 0),
{
}

/// Drops into a playable column fill it from the bottom up, one cell at a
/// time: onto a column holding `k` pieces, a piece lands on the cell right
/// above them and the column then holds `k + 1`. Once every playable cell of
/// the column is taken the column is full, and a further drop is refused with
/// the column left as it is.
pub proof fn lemma_drops_fill_bottom_up(v: BoardView, col: int, k: int, p: BoardLocation)
    requires
        valid(v),
        playable_column(v, col),
        0 <= k,
        stacked(v, col, k),
        is_piece(p),
    ensures
        k < v.rows - 1 ==> {
            &&& !column_full(v, col)
            &&& is_landing(v, col, v.rows - 2 - k)
            &&& landing_row(v, col) == v.rows - 2 - k
            &&& stacked(place_at(v, v.rows - 2 - k, col, p), col, k + 1)
        },
        k >= v.rows - 1 ==> column_full(v, col),
{
    if k < v.rows - 1 {
        let row = v.rows - 2 - k;
        assert(at(v, row, col) == BoardLocation::Empty);
        assert(is_landing(v, col, row));
        lemma_landing_unique(v, col, row);
        let w = place_at(v, row, col, p);
        assert forall|r: int|
            0 <= r < w.rows - 1 implies (#[trigger] at(w, r, col) != BoardLocation::Empty <==> r
            >= w.rows - 1 - (k + 1)) by {
            if r != row {
                assert(at(w, r, col) == at(v, r, col));
            }
        }
    }
}

/// Walls stand on every border cell of a valid board: no border cell is
/// empty or holds a piece.
pub proof fn lemma_walls_hold(v: BoardView, r: int, c: int)
    requires
        valid(v),
        in_grid(v, r, c),
        !interior(v, r, c),
    ensures
        at(v, r, c) == BoardLocation::Wall,
        at(v, r, c) != BoardLocation::Empty,
        !is_piece(at(v, r, c)),
{
}

/// Four cells holding `p` in a line from `(r, c)` in direction `(dr, dc)`.
pub open spec fn four_in_a_row(v: BoardView, r: int, c: int, dr: int, dc: int, p: BoardLocation) -> bool {
    &&& is_piece(p)
    &&& in_grid(v, r, c) && at(v, r, c) == p
    &&& in_grid(v, r + dr, c + dc) && at(v, r + dr, c + dc) == p
    &&& in_grid(v, r + 2 * dr, c + 2 * dc) && at(v, r + 2 * dr, c + 2 * dc) == p
    &&& in_grid(v, r + 3 * dr, c + 3 * dc) && at(v, r + 3 * dr, c + 3 * dc) == p
}

/// One of the eight unit steps between neighbouring cells.
pub open spec fn is_step(dr: int, dc: int) -> bool {
    -1 <= dr <= 1 && -1 <= dc <= 1 && !(dr == 0 && dc == 0)
}

/// The cell at `(r, c)` lies on four in a row along the axis of `(dr, dc)`
/// whenever three cells after it and none before, two after and one before,
/// and so on, hold its piece.
proof fn lemma_line_through(v: BoardView, r: int, c: int, dr: int, dc: int, p: BoardLocation, j: int)
    requires
        four_in_a_row(v, r - j * dr, c - j * dc, dr, dc, p),
        is_step(dr, dc),
        0 <= j < 4,
    ensures
        wins_at(v, r, c),
        at(v, r, c) == p,
{
    reveal_with_fuel(run, 4);
    if j == 0 {
        assert(run(v, r, c, dr, dc, p, 3) >= 3);
    } else if j == 1 {
        assert(r - j * dr == r - dr && c - j * dc == c - dc);
        assert(run(v, r, c, dr, dc, p, 3) >= 2);
        assert(run(v, r, c, -dr, -dc, p, 3) >= 1);
    } else if j == 2 {
        assert(r - j * dr == r - 2 * dr && c - j * dc == c - 2 * dc);
        assert(run(v, r, c, dr, dc, p, 3) >= 1);
        assert(run(v, r, c, -dr, -dc, p, 3) >= 2);
    } else {
        assert(r - j * dr == r - 3 * dr && c - j * dc == c - 3 * dc);
        assert(run(v, r, c, -dr, -dc, p, 3) >= 3);
    }
}

/// A four in a row is found whichever of its four cells the check starts
/// from.
pub proof fn lemma_win_seen_from_each_cell(
    v: BoardView,
    r: int,
    c: int,
    dr: int,
    dc: int,
    p: BoardLocation,
)
    requires
        four_in_a_row(v, r, c, dr, dc, p),
        is_step(dr, dc),
    ensures
        judge(v, Some((r, c))) == GameResult::Win(p),
        judge(v, Some((r + dr, c + dc))) == GameResult::Win(p),
        judge(v, Some((r + 2 * dr, c + 2 * dc))) == GameResult::Win(p),
        judge(v, Some((r + 3 * dr, c + 3 * dc))) == GameResult::Win(p),
{
    lemma_line_through(v, r, c, dr, dc, p, 0);
    lemma_line_through(v, r + dr, c + dc, dr, dc, p, 1);
    lemma_line_through(v, r + 2 * dr, c + 2 * dc, dr, dc, p, 2);
    lemma_line_through(v, r + 3 * dr, c + 3 * dc, dr, dc, p, 3);
}

} // verus!
