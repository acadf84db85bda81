use vstd::prelude::*;

verus! {

/// Why a request on the game was refused.
#[derive(Debug, PartialEq, Eq)]
pub enum AppError {
    /// The column lies outside the playable columns.
    OutOfBounds,
    /// The column holds no empty cell.
    ColumnOverflow,
    /// The team token names no piece.
    InvalidPiece,
    /// The game has ended; carries the final rendering of board and result.
    GameOver(String),
}

} // verus!
