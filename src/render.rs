use vstd::prelude::*;

use crate::board::BoardView;
use crate::cell::{is_over, BoardLocation, GameResult};

verus! {

/// The glyph that stands for a cell.
pub open spec fn glyph(p: BoardLocation) -> Seq<char> {
    match p {
        BoardLocation::Cookie => "🍪"@,
        BoardLocation::Empty => "⬛"@,
        BoardLocation::Milk => "🥛"@,
        BoardLocation::Wall => "⬜"@,
    }
}

/// The glyphs of a row of cells, left to right.
pub open spec fn row_text(row: Seq<BoardLocation>) -> Seq<char>
    decreases row.len(),
{
    if row.len() == 0 {
        Seq::empty()
    } else {
        row_text(row.drop_last()) + glyph(row.last())
    }
}

/// The rows of a grid, top to bottom, each ended by a line break.
pub open spec fn grid_text(cells: Seq<Seq<BoardLocation>>) -> Seq<char>
    decreases cells.len(),
{
    if cells.len() == 0 {
        Seq::empty()
    } else {
        grid_text(cells.drop_last()) + row_text(cells.last()) + "\n"@
    }
}

/// The sentence that announces a result; empty while the game goes on.
pub open spec fn result_text(g: GameResult) -> Seq<char> {
    match g {
        GameResult::Win(p) => glyph(p) + " wins!"@,
        GameResult::Draw => "No winner."@,
        GameResult::InProgress => Seq::empty(),
    }
}

/// The board as text, followed by a line with the result once the game is
/// over.
pub open spec fn board_text(v: BoardView) -> Seq<char> {
    if is_over(v.status) {
        grid_text(v.cells) + result_text(v.status) + "\n"@
    } else {
        grid_text(v.cells)
    }
}

} // verus!
