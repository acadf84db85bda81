use vstd::prelude::*;

use crate::error::AppError;
use crate::render::{glyph, result_text};

verus! {

/// What a grid position holds.
#[derive(Debug, Clone, Copy, PartialEq, Eq, Structural)]
pub enum BoardLocation {
    Empty,
    Milk,
    Wall,
    Cookie,
}

/// Where a game stands.
#[derive(Debug, Clone, Copy, PartialEq, Eq, Structural)]
pub enum GameResult {
    Win(BoardLocation),
    Draw,
    InProgress,
}

/// Whether a cell holds one of the two players' pieces.
pub open spec fn is_piece(p: BoardLocation) -> bool {
    p == BoardLocation::Milk || p == BoardLocation::Cookie
}

/// Whether a game has reached a terminal result.
pub open spec fn is_over(g: GameResult) -> bool {
    !(g is InProgress)
}

impl BoardLocation {
    /// Whether this cell holds a player's piece.
    pub fn is_piece(&self) -> (r: bool)
        ensures
            r == is_piece(*self),
    {
        match self {
            BoardLocation::Milk | BoardLocation::Cookie => true,
            _ => false,
        }
    }
}

impl BoardLocation {
    /// The glyph that stands for this cell.
    pub fn to_string(&self) -> (r: &'static str)
        ensures
            r@ == glyph(*self),
    {
        match self {
            BoardLocation::Cookie => "🍪",
            BoardLocation::Empty => "⬛",
            BoardLocation::Milk => "🥛",
            BoardLocation::Wall => "⬜",
        }
    }

    /// The piece that a team token names: its glyph or its lower-case name.
    pub fn parse_piece(s: &str) -> (r: Result<BoardLocation, AppError>)
        ensures
            r == match piece_of(s@) {
                Some(p) => Ok::<BoardLocation, AppError>(p),
                None => Err(AppError::InvalidPiece),
            },
    {
        if same_text(s, "🍪") || same_text(s, "cookie") {
            Ok(BoardLocation::Cookie)
        } else if same_text(s, "🥛") || same_text(s, "milk") {
            Ok(BoardLocation::Milk)
        } else {
            Err(AppError::InvalidPiece)
        }
    }
}

/// The piece that a team token names, if any.
pub open spec fn piece_of(t: Seq<char>) -> Option<BoardLocation> {
    if t == "🍪"@ || t == "cookie"@ {
        Some(BoardLocation::Cookie)
    } else if t == "🥛"@ || t == "milk"@ {
        Some(BoardLocation::Milk)
    } else {
        None
    }
}

/// Whether two strings hold the same characters.
fn same_text(a: &str, b: &str) -> (r: bool)
    ensures
        r == (a@ == b@),
{
    let n = a.unicode_len();
    if n != b.unicode_len() {
        return false;
    }
    let mut i: usize = 0;
    while i < n
        invariant
            n == a@.len(),
            n == b@.len(),
            i <= n,
            a@.subrange(0, i as int) == b@.subrange(0, i as int),
        decreases n - i,
    {
        if a.get_char(i) != b.get_char(i) {
            assert(a@[i as int] != b@[i as int]);
            return false;
        }
        assert(a@.subrange(0, i + 1) =~= a@.subrange(0, i as int).push(a@[i as int]));
        assert(b@.subrange(0, i + 1) =~= b@.subrange(0, i as int).push(b@[i as int]));
        i += 1;
    }
    assert(a@ =~= a@.subrange(0, n as int));
    assert(b@ =~= b@.subrange(0, n as int));
    true
}

impl GameResult {
    /// The sentence that announces this result; empty while the game goes on.
    pub fn to_string(&self) -> (r: String)
        ensures
            r@ == result_text(*self),
    {
        let mut s = String::new();
        match self {
            GameResult::Win(p) => {
                s.append(p.to_string());
                s.append(" wins!");
            },
            GameResult::Draw => {
                s.append("No winner.");
            },
            GameResult::InProgress => {},
        }
        proof {
            assert(s@ =~= result_text(*self));
        }
        s
    }

    /// Whether the game has ended in a win or a draw.
    pub fn is_over(&self) -> (r: bool)
        ensures
            r == is_over(*self),
    {
        match self {
            GameResult::InProgress => false,
            _ => true,
        }
    }
}

} // verus!
