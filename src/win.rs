use vstd::prelude::*;

use crate::board::{at, in_grid, interior, BoardView};
use crate::cell::{is_piece, BoardLocation, GameResult};

verus! {

/// How many of the `k` cells that follow `(r, c)` in direction `(dr, dc)`
/// hold `p` without a gap, counted from `(r, c)` outward.
pub open spec fn run(v: BoardView, r: int, c: int, dr: int, dc: int, p: BoardLocation, k: nat) -> nat
    decreases k,
{
    if k == 0 {
        0
    } else if in_grid(v, r + dr, c + dc) && at(v, r + dr, c + dc) == p {
        1 + run(v, r + dr, c + dc, dr, dc, p, (k - 1) as nat)
    } else {
        0
    }
}

/// The length of the unbroken line of the piece at `(r, c)` through that
/// cell along the axis `(dr, dc)`, looking at most three cells each way.
pub open spec fn line_len(v: BoardView, r: int, c: int, dr: int, dc: int) -> nat {
    1 + run(v, r, c, dr, dc, at(v, r, c), 3) + run(v, r, c, -dr, -dc, at(v, r, c), 3)
}

/// The piece at `(r, c)` lies on four in a row along the axis `(dr, dc)`.
pub open spec fn wins_along(v: BoardView, r: int, c: int, dr: int, dc: int) -> bool {
    is_piece(at(v, r, c)) && line_len(v, r, c, dr, dc) >= 4
}

/// The piece at `(r, c)` lies on four in a row horizontally, vertically or
/// along one of the two diagonals.
pub open spec fn wins_at(v: BoardView, r: int, c: int) -> bool {
    ||| wins_along(v, r, c, 0, 1)
    ||| wins_along(v, r, c, 1, 0)
    ||| wins_along(v, r, c, 1, 1)
    ||| wins_along(v, r, c, -1, 1)
}

/// Some playable cell is still empty.
pub open spec fn has_empty(v: BoardView) -> bool {
    exists|r: int, c: int| interior(v, r, c) && #[trigger] at(v, r, c) == BoardLocation::Empty
}

/// The result of a board on which nobody has won.
pub open spec fn without_winner(v: BoardView) -> GameResult {
    if has_empty(v) {
        GameResult::InProgress
    } else {
        GameResult::Draw
    }
}

/// The piece of the first winning cell of row `r`, from column `c` rightward.
pub open spec fn first_win_in_row(v: BoardView, r: int, c: int) -> Option<BoardLocation>
    decreases v.columns - 1 - c,
{
    if 1 <= c < v.columns - 1 {
        if wins_at(v, r, c) {
            Some(at(v, r, c))
        } else {
            first_win_in_row(v, r, c + 1)
        }
    } else {
        None
    }
}

/// The piece of the first winning playable cell, scanning rows from `r`
/// downward and each row from left to right.
pub open spec fn first_win_from(v: BoardView, r: int) -> Option<BoardLocation>
    decreases v.rows - 1 - r,
{
    if 0 <= r < v.rows - 1 {
        match first_win_in_row(v, r, 1) {
            Some(p) => Some(p),
            None => first_win_from(v, r + 1),
        }
    } else {
        None
    }
}

/// The result of a board, judged from the cell of the last move when one is
/// given, else from every playable cell.
pub open spec fn judge(v: BoardView, origin: Option<(int, int)>) -> GameResult {
    match origin {
        Some((r, c)) => if wins_at(v, r, c) {
            GameResult::Win(at(v, r, c))
        } else {
            without_winner(v)
        },
        None => match first_win_from(v, 0) {
            Some(p) => GameResult::Win(p),
            None => without_winner(v),
        },
    }
}

} // verus!
