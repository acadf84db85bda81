use vstd::prelude::*;

use crate::cell::{is_over, is_piece, piece_of, BoardLocation, GameResult};
use crate::error::AppError;
use crate::render::{board_text, grid_text, row_text};
use crate::win::{first_win_from, first_win_in_row, has_empty, judge, run, wins_along};

verus! {

/// The abstract state of a board: its size, its cells row by row, and the
/// recorded result of the game.
pub ghost struct BoardView {
    pub rows: int,
    pub columns: int,
    pub cells: Seq<Seq<BoardLocation>>,
    pub status: GameResult,
}

/// Whether `(r, c)` addresses a cell of the grid.
pub open spec fn in_grid(v: BoardView, r: int, c: int) -> bool {
    0 <= r < v.rows && 0 <= c < v.columns
}

/// Whether `(r, c)` is a playable cell: every row but the bottom one, every
/// column but the two outer ones.
pub open spec fn interior(v: BoardView, r: int, c: int) -> bool {
    0 <= r < v.rows - 1 && 1 <= c < v.columns - 1
}

/// The cell at `(r, c)`.
pub open spec fn at(v: BoardView, r: int, c: int) -> BoardLocation {
    v.cells[r][c]
}

/// The cell that a new board holds at `(r, c)`.
pub open spec fn initial_cell(rows: int, columns: int, r: int, c: int) -> BoardLocation {
    if 0 <= r < rows - 1 && 1 <= c < columns - 1 {
        BoardLocation::Empty
    } else {
        BoardLocation::Wall
    }
}

/// A new board of the given size: walls on the border but for the top row,
/// every other cell empty, game in progress.
pub open spec fn fresh_view(rows: int, columns: int) -> BoardView {
    BoardView {
        rows,
        columns,
        cells: Seq::new(
            rows as nat,
            |r: int| Seq::new(columns as nat, |c: int| initial_cell(rows, columns, r, c)),
        ),
        status: GameResult::InProgress,
    }
}

/// The grid has `rows` rows of `columns` cells each.
pub open spec fn shaped(v: BoardView) -> bool {
    &&& 0 <= v.rows
    &&& 0 <= v.columns
    &&& v.cells.len() == v.rows
    &&& forall|r: int| 0 <= r < v.rows ==> #[trigger] v.cells[r].len() == v.columns
}

/// Walls stand exactly on the border cells.
pub open spec fn walls_exact(v: BoardView) -> bool {
    forall|r: int, c: int|
        in_grid(v, r, c) ==> ((#[trigger] at(v, r, c) == BoardLocation::Wall) <==> !interior(v, r, c))
}

/// Every piece rests on a piece or on the bottom wall: in each column, the
/// cells below an occupied cell are occupied too.
pub open spec fn settled(v: BoardView) -> bool {
    forall|r1: int, r2: int, c: int|
        #![trigger at(v, r1, c), at(v, r2, c)]
        interior(v, r1, c) && interior(v, r2, c) && r1 < r2 && at(v, r1, c) != BoardLocation::Empty
            ==> at(v, r2, c) != BoardLocation::Empty
}

/// Whether `col` is a column that pieces can be dropped into.
pub open spec fn playable_column(v: BoardView, col: int) -> bool {
    1 <= col < v.columns - 1
}

/// No playable cell of column `col` is empty.
pub open spec fn column_full(v: BoardView, col: int) -> bool {
    forall|r: int| 0 <= r < v.rows - 1 ==> #[trigger] at(v, r, col) != BoardLocation::Empty
}

/// `row` is the bottom-most empty playable cell of column `col`.
pub open spec fn is_landing(v: BoardView, col: int, row: int) -> bool {
    &&& 0 <= row < v.rows - 1
    &&& at(v, row, col) == BoardLocation::Empty
    &&& forall|r: int| row < r < v.rows - 1 ==> #[trigger] at(v, r, col) != BoardLocation::Empty
}

/// The board with the cell at `(row, col)` set to `p`.
pub open spec fn place_at(v: BoardView, row: int, col: int, p: BoardLocation) -> BoardView {
    BoardView { cells: v.cells.update(row, v.cells[row].update(col, p)), ..v }
}

/// The bottom-most empty playable cell of column `col`, where one exists.
pub open spec fn landing_row(v: BoardView, col: int) -> int {
    choose|row: int| is_landing(v, col, row)
}

/// A column has at most one landing cell.
pub proof fn lemma_landing_unique(v: BoardView, col: int, row: int)
    requires
        is_landing(v, col, row),
    ensures
        landing_row(v, col) == row,
{
    let other = landing_row(v, col);
    assert(is_landing(v, col, other));
    if other < row {
        assert(at(v, row, col) != BoardLocation::Empty);
    } else if other > row {
        assert(at(v, other, col) != BoardLocation::Empty);
    }
}

/// The board after `p` lands on `(row, col)`, with the result judged from
/// that cell.
pub open spec fn after_move(v: BoardView, row: int, col: int, p: BoardLocation) -> BoardView {
    let w = place_at(v, row, col, p);
    BoardView { status: judge(w, Some((row, col))), ..w }
}

/// `r` is a refusal because the game is over, carrying `text`.
pub open spec fn refused_as_over(r: Result<String, AppError>, text: Seq<char>) -> bool {
    match r {
        Err(AppError::GameOver(msg)) => msg@ == text,
        _ => false,
    }
}

/// A board that the operations of this library can produce.
pub open spec fn valid(v: BoardView) -> bool {
    &&& shaped(v)
    &&& walls_exact(v)
    &&& settled(v)
}

/// Dropping a piece onto the landing cell of a playable column keeps the
/// board valid.
proof fn lemma_place_keeps_valid(v: BoardView, col: int, row: int, p: BoardLocation)
    requires
        valid(v),
        playable_column(v, col),
        is_landing(v, col, row),
        is_piece(p),
    ensures
        valid(place_at(v, row, col, p)),
{
    let w = place_at(v, row, col, p);
    assert forall|r: int, c: int| in_grid(w, r, c) implies ((#[trigger] at(w, r, c)
        == BoardLocation::Wall) <==> !interior(w, r, c)) by {
        assert(at(v, r, c) == BoardLocation::Wall <==> !interior(v, r, c));
    }
    assert forall|r1: int, r2: int, c: int|
        #![trigger at(w, r1, c), at(w, r2, c)]
        interior(w, r1, c) && interior(w, r2, c) && r1 < r2 && at(w, r1, c) != BoardLocation::Empty
            implies at(w, r2, c) != BoardLocation::Empty by {
        if c == col && r2 == row {
            assert(at(v, r1, c) != BoardLocation::Empty);
            assert(at(v, r2, c) == BoardLocation::Empty);
        } else if c == col && r1 == row {
            assert(at(v, r2, c) != BoardLocation::Empty);
        } else {
            assert(at(v, r1, c) == at(w, r1, c));
            assert(at(v, r2, c) == at(w, r2, c));
        }
    }
}

/// A game board: the grid of cells and the result recorded so far.
#[derive(Debug)]
pub struct GameBoard {
    rows: usize,
    columns: usize,
    board: Vec<Vec<BoardLocation>>,
    game_status: GameResult,
}

impl View for GameBoard {
    type V = BoardView;

    closed spec fn view(&self) -> BoardView {
        BoardView {
            rows: self.rows as int,
            columns: self.columns as int,
            cells: Seq::new(self.board@.len(), |i: int| self.board@[i]@),
            status: self.game_status,
        }
    }
}

impl GameBoard {
    /// The board is well formed.
    pub open spec fn wf(&self) -> bool {
        valid(self@)
    }

    /// A new board with walls on the left, right and bottom border (and the
    /// two top corners), every other cell empty, and the game in progress.
    pub fn new(rows: usize, columns: usize) -> (r: GameBoard)
        ensures
            r@ == fresh_view(rows as int, columns as int),
            r.wf(),
    {
        let mut board: Vec<Vec<BoardLocation>> = Vec::new();
        let mut row: usize = 0;
        while row < rows
            invariant
                row <= rows,
                board@.len() == row,
                forall|r: int, c: int|
                    0 <= r < row && 0 <= c < columns ==> board@[r]@.len() == columns
                        && #[trigger] board@[r]@[c] == initial_cell(rows as int, columns as int, r, c),
                forall|r: int| 0 <= r < row ==> #[trigger] board@[r]@.len() == columns,
            decreases rows - row,
        {
            let mut line: Vec<BoardLocation> = Vec::new();
            let mut column: usize = 0;
            while column < columns
                invariant
                    row < rows,
                    column <= columns,
                    line@.len() == column,
                    forall|c: int|
                        0 <= c < column ==> #[trigger] line@[c] == initial_cell(
                            rows as int,
                            columns as int,
                            row as int,
                            c,
                        ),
                decreases columns - column,
            {
                if row + 1 < rows && 1 <= column && column + 1 < columns {
                    line.push(BoardLocation::Empty);
                } else {
                    line.push(BoardLocation::Wall);
                }
                column += 1;
            }
            board.push(line);
            row += 1;
        }
        let r = GameBoard { rows, columns, board, game_status: GameResult::InProgress };
        assert(r@.cells =~~= fresh_view(rows as int, columns as int).cells);
        r
    }
    /// Drops `value` into column `col`: it comes to rest on the bottom-most
    /// empty cell of that column, whose coordinates are returned.
    pub fn set_cell(&mut self, col: usize, value: BoardLocation) -> (r: Result<
        (usize, usize),
        AppError,
    >)
        requires
            old(self).wf(),
            is_piece(value),
        ensures
            final(self).wf(),
            !playable_column(old(self)@, col as int) ==> r == Err::<(usize, usize), AppError>(
                AppError::OutOfBounds,
            ),
            playable_column(old(self)@, col as int) && column_full(old(self)@, col as int) ==> r
                == Err::<(usize, usize), AppError>(AppError::ColumnOverflow),
            r is Err ==> final(self)@ == old(self)@,
            r matches Ok((row, c)) ==> {
                &&& playable_column(old(self)@, col as int)
                &&& c == col
                &&& is_landing(old(self)@, col as int, row as int)
                &&& final(self)@ == place_at(old(self)@, row as int, col as int, value)
            },
            playable_column(old(self)@, col as int) && !column_full(old(self)@, col as int) ==> r is Ok,
    {
        if col < 1 || col >= self.columns || col + 1 >= self.columns {
            return Err(AppError::OutOfBounds);
        }
        let ghost v = self@;
        let mut k: usize = if self.rows > 0 {
            self.rows - 1
        } else {
            0
        };
        while k > 0
            invariant
                self@ == v,
                v == old(self)@,
                is_piece(value),
                valid(v),
                playable_column(v, col as int),
                k < v.rows || k == 0,
                forall|r: int| k <= r < v.rows - 1 ==> #[trigger] at(v, r, col as int) != BoardLocation::Empty,
            decreases k,
        {
            proof {
                assert(self@.cells[k - 1] == self.board@[k - 1]@);
            }
            if self.board[k - 1][col] == BoardLocation::Empty {
                let row = k - 1;
                self.board[row][col] = value;
                assert(self@.cells =~~= place_at(v, row as int, col as int, value).cells);
                proof {
                    lemma_place_keeps_valid(v, col as int, row as int, value);
                }
                return Ok((row, col));
            }
            k -= 1;
        }
        Err(AppError::ColumnOverflow)
    }
    /// The number of cells holding `piece` in an unbroken line that follow
    /// `(row, col)` in direction `(dr, dc)`, looking at most three cells on.
    fn run_length(&self, row: usize, col: usize, dr: isize, dc: isize, piece: BoardLocation) -> (n:
        usize)
        requires
            self.wf(),
            in_grid(self@, row as int, col as int),
            -1 <= dr <= 1,
            -1 <= dc <= 1,
        ensures
            n == run(self@, row as int, col as int, dr as int, dc as int, piece, 3),
            n <= 3,
    {
        let mut n: usize = 0;
        let mut r: usize = row;
        let mut c: usize = col;
        while n < 3
            invariant
                self.wf(),
                n <= 3,
                -1 <= dr <= 1,
                -1 <= dc <= 1,
                in_grid(self@, r as int, c as int),
                run(self@, row as int, col as int, dr as int, dc as int, piece, 3) == n + run(
                    self@,
                    r as int,
                    c as int,
                    dr as int,
                    dc as int,
                    piece,
                    (3 - n) as nat,
                ),
            decreases 3 - n,
        {
            let next_r: usize;
            if dr < 0 {
                if r == 0 {
                    return n;
                }
                next_r = r - 1;
            } else if dr > 0 {
                if r + 1 >= self.rows {
                    return n;
                }
                next_r = r + 1;
            } else {
                next_r = r;
            }
            let next_c: usize;
            if dc < 0 {
                if c == 0 {
                    return n;
                }
                next_c = c - 1;
            } else if dc > 0 {
                if c + 1 >= self.columns {
                    return n;
                }
                next_c = c + 1;
            } else {
                next_c = c;
            }
            proof {
                assert(self@.cells[next_r as int] == self.board@[next_r as int]@);
            }
            if self.board[next_r][next_c] != piece {
                return n;
            }
            n += 1;
            r = next_r;
            c = next_c;
        }
        n
    }

    /// Whether the piece at `(row, col)` lies on four in a row along the
    /// axis `(dr, dc)`.
    fn check_axis(&self, row: usize, col: usize, dr: isize, dc: isize) -> (r: bool)
        requires
            self.wf(),
            in_grid(self@, row as int, col as int),
            -1 <= dr <= 1,
            -1 <= dc <= 1,
        ensures
            r == wins_along(self@, row as int, col as int, dr as int, dc as int),
    {
        proof {
            assert(self@.cells[row as int] == self.board@[row as int]@);
        }
        let player = self.board[row][col];
        if !player.is_piece() {
            return false;
        }
        let ahead = self.run_length(row, col, dr, dc, player);
        let behind = self.run_length(row, col, -dr, -dc, player);
        1 + ahead + behind >= 4
    }

    /// Whether the piece at `(row, col)` lies on four in a row within its
    /// row; also returns what the cell holds.
    pub fn check_horizontal(&self, row: usize, col: usize) -> (r: (bool, BoardLocation))
        requires
            self.wf(),
            in_grid(self@, row as int, col as int),
        ensures
            r.0 == wins_along(self@, row as int, col as int, 0, 1),
            r.1 == at(self@, row as int, col as int),
    {
        proof {
            assert(self@.cells[row as int] == self.board@[row as int]@);
        }
        (self.check_axis(row, col, 0, 1), self.board[row][col])
    }

    /// Whether the piece at `(row, col)` lies on four in a row within its
    /// column; also returns what the cell holds.
    pub fn check_vertical(&self, row: usize, col: usize) -> (r: (bool, BoardLocation))
        requires
            self.wf(),
            in_grid(self@, row as int, col as int),
        ensures
            r.0 == wins_along(self@, row as int, col as int, 1, 0),
            r.1 == at(self@, row as int, col as int),
    {
        proof {
            assert(self@.cells[row as int] == self.board@[row as int]@);
        }
        (self.check_axis(row, col, 1, 0), self.board[row][col])
    }

    /// Whether the piece at `(row, col)` lies on four in a row along either
    /// diagonal; also returns what the cell holds.
    pub fn check_diagonal(&self, row: usize, col: usize) -> (r: (bool, BoardLocation))
        requires
            self.wf(),
            in_grid(self@, row as int, col as int),
        ensures
            r.0 == (wins_along(self@, row as int, col as int, 1, 1) || wins_along(
                self@,
                row as int,
                col as int,
                -1,
                1,
            )),
            r.1 == at(self@, row as int, col as int),
    {
        proof {
            assert(self@.cells[row as int] == self.board@[row as int]@);
        }
        let won = self.check_axis(row, col, 1, 1) || self.check_axis(row, col, -1, 1);
        (won, self.board[row][col])
    }
    /// Whether some playable cell is still empty.
    fn has_empty(&self) -> (r: bool)
        requires
            self.wf(),
        ensures
            r == has_empty(self@),
    {
        let mut row: usize = 0;
        while row + 1 < self.rows
            invariant
                self.wf(),
                row < self.rows || row == 0,
                forall|r: int, c: int|
                    0 <= r < row && interior(self@, r, c) ==> #[trigger] at(self@, r, c)
                        != BoardLocation::Empty,
            decreases self.rows - row,
        {
            proof {
                assert(self@.cells[row as int] == self.board@[row as int]@);
            }
            let mut col: usize = 1;
            while col + 1 < self.columns
                invariant
                    self.wf(),
                    row + 1 < self.rows,
                    1 <= col,
                    col < self.columns || col == 1,
                    self@.cells[row as int] == self.board@[row as int]@,
                    forall|r: int, c: int|
                        0 <= r < row && interior(self@, r, c) ==> #[trigger] at(self@, r, c)
                            != BoardLocation::Empty,
                    forall|c: int|
                        1 <= c < col ==> #[trigger] at(self@, row as int, c) != BoardLocation::Empty,
                decreases self.columns - col,
            {
                if self.board[row][col] == BoardLocation::Empty {
                    assert(interior(self@, row as int, col as int));
                    assert(at(self@, row as int, col as int) == BoardLocation::Empty);
                    return true;
                }
                col += 1;
            }
            row += 1;
        }
        false
    }

    /// The result of the board, judged from the cell of the last move when
    /// one is given, else from every playable cell: the piece of a four in a
    /// row wins; else the game is drawn once no playable cell is empty.
    pub fn check(&self, starting_position: Option<(usize, usize)>) -> (r: GameResult)
        requires
            self.wf(),
            starting_position matches Some((row, col)) ==> in_grid(self@, row as int, col as int),
        ensures
            r == judge(
                self@,
                match starting_position {
                    Some((row, col)) => Some((row as int, col as int)),
                    None => None,
                },
            ),
    {
        match starting_position {
            Some((row, col)) => {
                let (horizontal_win, player) = self.check_horizontal(row, col);
                if horizontal_win {
                    return GameResult::Win(player);
                }
                let (vertical_win, player) = self.check_vertical(row, col);
                if vertical_win {
                    return GameResult::Win(player);
                }
                let (diagonal_win, player) = self.check_diagonal(row, col);
                if diagonal_win {
                    return GameResult::Win(player);
                }
            },
            None => {
                let mut row: usize = 0;
                while row + 1 < self.rows
                    invariant
                        self.wf(),
                        starting_position is None,
                        row < self.rows || row == 0,
                        first_win_from(self@, 0) == first_win_from(self@, row as int),
                    decreases self.rows - row,
                {
                    let mut col: usize = 1;
                    while col + 1 < self.columns
                        invariant
                            self.wf(),
                            starting_position is None,
                            row + 1 < self.rows,
                            1 <= col,
                            col < self.columns || col == 1,
                            first_win_from(self@, 0) == first_win_from(self@, row as int),
                            first_win_in_row(self@, row as int, 1) == first_win_in_row(
                                self@,
                                row as int,
                                col as int,
                            ),
                        decreases self.columns - col,
                    {
                        let (horizontal_win, player) = self.check_horizontal(row, col);
                        if horizontal_win {
                            return GameResult::Win(player);
                        }
                        let (vertical_win, player) = self.check_vertical(row, col);
                        if vertical_win {
                            return GameResult::Win(player);
                        }
                        let (diagonal_win, player) = self.check_diagonal(row, col);
                        if diagonal_win {
                            return GameResult::Win(player);
                        }
                        col += 1;
                    }
                    row += 1;
                }
            },
        }
        if self.has_empty() {
            GameResult::InProgress
        } else {
            GameResult::Draw
        }
    }

    /// Records the result of the game.
    fn set_game_status(&mut self, game_status: GameResult)
        requires
            old(self).wf(),
        ensures
            final(self)@ == (BoardView { status: game_status, ..old(self)@ }),
            final(self).wf(),
    {
        self.game_status = game_status;
        proof {
            let v = old(self)@;
            let w = self@;
            assert(w.cells == v.cells);
            assert forall|r: int, c: int| #[trigger] at(w, r, c) == at(v, r, c) by {}
        }
    }
    /// The grid as text: one line per row, one glyph per cell.
    pub fn to_string(&self) -> (r: String)
        requires
            self.wf(),
        ensures
            r@ == grid_text(self@.cells),
    {
        let mut s = String::new();
        let mut row: usize = 0;
        while row < self.rows
            invariant
                self.wf(),
                row <= self.rows,
                s@ == grid_text(self@.cells.subrange(0, row as int)),
            decreases self.rows - row,
        {
            let ghost line = self@.cells[row as int];
            proof {
                assert(line == self.board@[row as int]@);
            }
            let ghost before = s@;
            let mut col: usize = 0;
            while col < self.columns
                invariant
                    self.wf(),
                    row < self.rows,
                    col <= self.columns,
                    line == self@.cells[row as int],
                    line == self.board@[row as int]@,
                    s@ == before + row_text(line.subrange(0, col as int)),
                decreases self.columns - col,
            {
                s.append(self.board[row][col].to_string());
                proof {
                    assert(line.subrange(0, col + 1).drop_last() =~= line.subrange(0, col as int));
                    assert(s@ =~= before + row_text(line.subrange(0, col + 1)));
                }
                col += 1;
            }
            s.append("\n");
            proof {
                assert(line.subrange(0, col as int) =~= line);
                assert(self@.cells.subrange(0, row + 1).drop_last() =~= self@.cells.subrange(
                    0,
                    row as int,
                ));
                assert(s@ =~= grid_text(self@.cells.subrange(0, row + 1)));
            }
            row += 1;
        }
        proof {
            assert(self@.cells.subrange(0, row as int) =~= self@.cells);
        }
        s
    }

    /// The board as text, followed by a line with the result once the game
    /// is over. Reading it changes nothing.
    pub fn status(&self) -> (r: String)
        requires
            self.wf(),
        ensures
            r@ == board_text(self@),
    {
        let mut s = self.to_string();
        if self.game_status.is_over() {
            let line = self.game_status.to_string();
            s.append(line.as_str());
            s.append("\n");
        }
        s
    }

    /// The result recorded for the game.
    pub fn game_status(&self) -> (r: GameResult)
        ensures
            r == self@.status,
    {
        self.game_status
    }

    /// The number of rows of the grid.
    pub fn rows(&self) -> (r: usize)
        ensures
            r == self@.rows,
    {
        self.rows
    }

    /// The number of columns of the grid.
    pub fn columns(&self) -> (r: usize)
        ensures
            r == self@.columns,
    {
        self.columns
    }

    /// What the cell at `(row, col)` holds.
    pub fn cell(&self, row: usize, col: usize) -> (r: BoardLocation)
        requires
            self.wf(),
            in_grid(self@, row as int, col as int),
        ensures
            r == at(self@, row as int, col as int),
    {
        proof {
            assert(self@.cells[row as int] == self.board@[row as int]@);
        }
        self.board[row][col]
    }
    /// Drops a piece of `team` into `column` and judges the game from the
    /// cell where it lands. On success returns the board as `status` then
    /// shows it. The board is left as it was on every error.
    pub fn place(&mut self, team: &str, column: usize) -> (r: Result<String, AppError>)
        requires
            old(self).wf(),
        ensures
            final(self).wf(),
            r is Err ==> final(self)@ == old(self)@,
            piece_of(team@) is None ==> r == Err::<String, AppError>(AppError::InvalidPiece),
            piece_of(team@) is Some && is_over(old(self)@.status) ==> refused_as_over(
                r,
                board_text(old(self)@),
            ),
            piece_of(team@) is Some && !is_over(old(self)@.status) && !playable_column(
                old(self)@,
                column as int,
            ) ==> r == Err::<String, AppError>(AppError::OutOfBounds),
            piece_of(team@) is Some && !is_over(old(self)@.status) && playable_column(
                old(self)@,
                column as int,
            ) && column_full(old(self)@, column as int) ==> r == Err::<String, AppError>(
                AppError::ColumnOverflow,
            ),
            piece_of(team@) is Some && !is_over(old(self)@.status) && playable_column(
                old(self)@,
                column as int,
            ) && !column_full(old(self)@, column as int) ==> {
                &&& final(self)@ == after_move(
                    old(self)@,
                    landing_row(old(self)@, column as int),
                    column as int,
                    piece_of(team@)->Some_0,
                )
                &&& r matches Ok(text) && text@ == board_text(final(self)@)
            },
    {
        let piece = match BoardLocation::parse_piece(team) {
            Ok(p) => p,
            Err(e) => return Err(e),
        };
        if self.game_status.is_over() {
            return Err(AppError::GameOver(self.status()));
        }
        let ghost v = self@;
        match self.set_cell(column, piece) {
            Ok((row, col)) => {
                proof {
                    lemma_landing_unique(v, column as int, row as int);
                }
                let result = self.check(Some((row, col)));
                self.set_game_status(result);
                Ok(self.status())
            },
            Err(e) => Err(e),
        }
    }

    /// Replaces the board with a new one of the same size, the game in
    /// progress; returns the new board as text.
    pub fn reset(&mut self) -> (r: String)
        requires
            old(self).wf(),
        ensures
            final(self)@ == fresh_view(old(self)@.rows, old(self)@.columns),
            final(self).wf(),
            r@ == board_text(final(self)@),
    {
        *self = GameBoard::new(self.rows, self.columns);
        self.status()
    }
}

} // verus!
