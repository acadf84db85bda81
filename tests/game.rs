use connect_four::board::GameBoard;
use connect_four::cell::{BoardLocation, GameResult};
use connect_four::error::AppError;

const FRESH: &str = "⬜⬛⬛⬛⬛⬜\n⬜⬛⬛⬛⬛⬜\n⬜⬛⬛⬛⬛⬜\n⬜⬛⬛⬛⬛⬜\n⬜⬜⬜⬜⬜⬜\n";

fn drop_all(g: &mut GameBoard, moves: &[(&str, usize)]) -> Vec<Result<String, AppError>> {
    moves.iter().map(|(team, col)| g.place(team, *col)).collect()
}

#[test]
fn new_board_has_walls_and_open_top() {
    let g = GameBoard::new(5, 6);
    assert_eq!(g.status(), FRESH);
    assert_eq!(g.to_string(), FRESH);
    assert_eq!(g.game_status(), GameResult::InProgress);
    assert_eq!(g.rows(), 5);
    assert_eq!(g.columns(), 6);
    assert_eq!(g.cell(0, 0), BoardLocation::Wall);
    assert_eq!(g.cell(0, 5), BoardLocation::Wall);
    assert_eq!(g.cell(0, 1), BoardLocation::Empty);
    assert_eq!(g.cell(4, 3), BoardLocation::Wall);
    assert_eq!(g.cell(3, 3), BoardLocation::Empty);
}

#[test]
fn other_sizes_follow_the_same_wall_pattern() {
    let g = GameBoard::new(3, 4);
    assert_eq!(g.status(), "⬜⬛⬛⬜\n⬜⬛⬛⬜\n⬜⬜⬜⬜\n");
    let tiny = GameBoard::new(0, 0);
    assert_eq!(tiny.status(), "");
}

#[test]
fn drops_fill_a_column_bottom_up_then_overflow() {
    let mut g = GameBoard::new(5, 6);
    let teams = ["milk", "cookie", "milk", "cookie"];
    for (i, team) in teams.iter().enumerate() {
        assert!(g.place(team, 2).is_ok());
        let row = 3 - i;
        assert!(g.cell(row, 2).is_piece());
        if row > 0 {
            assert_eq!(g.cell(row - 1, 2), BoardLocation::Empty);
        }
    }
    assert_eq!(g.cell(3, 2), BoardLocation::Milk);
    assert_eq!(g.cell(2, 2), BoardLocation::Cookie);
    assert_eq!(g.cell(1, 2), BoardLocation::Milk);
    assert_eq!(g.cell(0, 2), BoardLocation::Cookie);
    let before = g.status();
    assert_eq!(g.place("milk", 2), Err(AppError::ColumnOverflow));
    assert_eq!(g.status(), before);
    assert_eq!(g.game_status(), GameResult::InProgress);
}

#[test]
fn set_cell_reports_landing_cell() {
    let mut g = GameBoard::new(5, 6);
    assert_eq!(g.set_cell(4, BoardLocation::Cookie), Ok((3, 4)));
    assert_eq!(g.set_cell(4, BoardLocation::Milk), Ok((2, 4)));
    assert_eq!(g.set_cell(0, BoardLocation::Milk), Err(AppError::OutOfBounds));
    assert_eq!(g.set_cell(5, BoardLocation::Milk), Err(AppError::OutOfBounds));
}

#[test]
fn columns_outside_the_playable_range_are_refused() {
    let mut g = GameBoard::new(5, 6);
    for col in [0usize, 5, 6, 100] {
        assert_eq!(g.place("milk", col), Err(AppError::OutOfBounds));
    }
    assert_eq!(g.status(), FRESH);
}

#[test]
fn unknown_team_tokens_are_refused() {
    let mut g = GameBoard::new(5, 6);
    for team in ["tea", "Milk", "COOKIE", "", "⬛", "⬜", "milk "] {
        assert_eq!(g.place(team, 1), Err(AppError::InvalidPiece));
    }
    assert_eq!(g.status(), FRESH);
}

#[test]
fn glyph_and_name_tokens_are_accepted() {
    assert_eq!(BoardLocation::parse_piece("milk"), Ok(BoardLocation::Milk));
    assert_eq!(BoardLocation::parse_piece("🥛"), Ok(BoardLocation::Milk));
    assert_eq!(BoardLocation::parse_piece("cookie"), Ok(BoardLocation::Cookie));
    assert_eq!(BoardLocation::parse_piece("🍪"), Ok(BoardLocation::Cookie));
    let mut g = GameBoard::new(5, 6);
    assert_eq!(
        g.place("🍪", 1),
        Ok("⬜⬛⬛⬛⬛⬜\n⬜⬛⬛⬛⬛⬜\n⬜⬛⬛⬛⬛⬜\n⬜🍪⬛⬛⬛⬜\n⬜⬜⬜⬜⬜⬜\n".to_string())
    );
}

#[test]
fn glyphs_and_result_lines() {
    assert_eq!(BoardLocation::Cookie.to_string(), "🍪");
    assert_eq!(BoardLocation::Empty.to_string(), "⬛");
    assert_eq!(BoardLocation::Milk.to_string(), "🥛");
    assert_eq!(BoardLocation::Wall.to_string(), "⬜");
    assert_eq!(GameResult::Win(BoardLocation::Milk).to_string(), "🥛 wins!");
    assert_eq!(GameResult::Win(BoardLocation::Cookie).to_string(), "🍪 wins!");
    assert_eq!(GameResult::Draw.to_string(), "No winner.");
    assert_eq!(GameResult::InProgress.to_string(), "");
    assert!(GameResult::Draw.is_over());
    assert!(!GameResult::InProgress.is_over());
}

#[test]
fn four_milk_in_a_column_wins_then_game_over() {
    let mut g = GameBoard::new(5, 6);
    g.reset();
    for _ in 0..3 {
        let text = g.place("milk", 1).unwrap();
        assert!(!text.contains("wins"));
    }
    let won = g.place("milk", 1).unwrap();
    let board = "⬜🥛⬛⬛⬛⬜\n⬜🥛⬛⬛⬛⬜\n⬜🥛⬛⬛⬛⬜\n⬜🥛⬛⬛⬛⬜\n⬜⬜⬜⬜⬜⬜\n";
    assert_eq!(won, format!("{}🥛 wins!\n", board));
    assert_eq!(g.game_status(), GameResult::Win(BoardLocation::Milk));
    let before = g.status();
    assert_eq!(before, won);
    assert_eq!(g.place("milk", 1), Err(AppError::GameOver(won.clone())));
    assert_eq!(g.place("cookie", 2), Err(AppError::GameOver(won.clone())));
    assert_eq!(g.status(), before);
    assert_eq!(g.cell(3, 2), BoardLocation::Empty);
}

#[test]
fn invalid_token_is_reported_before_game_over() {
    let mut g = GameBoard::new(5, 6);
    for _ in 0..4 {
        g.place("milk", 1).unwrap();
    }
    assert_eq!(g.place("tea", 1), Err(AppError::InvalidPiece));
}

#[test]
fn full_board_without_four_in_a_row_is_a_draw() {
    let mut g = GameBoard::new(5, 6);
    let mut moves: Vec<(&str, usize)> = Vec::new();
    for col in [1usize, 2] {
        for team in ["milk", "cookie", "milk", "cookie"] {
            moves.push((team, col));
        }
    }
    for col in [3usize, 4] {
        for team in ["cookie", "milk", "cookie", "milk"] {
            moves.push((team, col));
        }
    }
    let results = drop_all(&mut g, &moves);
    for r in &results[..results.len() - 1] {
        let text = r.as_ref().unwrap();
        assert!(!text.contains("wins") && !text.contains("No winner."));
    }
    let last = results.last().unwrap().as_ref().unwrap();
    let board = "⬜🍪🍪🥛🥛⬜\n⬜🥛🥛🍪🍪⬜\n⬜🍪🍪🥛🥛⬜\n⬜🥛🥛🍪🍪⬜\n⬜⬜⬜⬜⬜⬜\n";
    assert_eq!(*last, format!("{}No winner.\n", board));
    assert_eq!(g.game_status(), GameResult::Draw);
    assert_eq!(g.check(None), GameResult::Draw);
    assert_eq!(g.place("milk", 1), Err(AppError::GameOver(last.clone())));
}

#[test]
fn horizontal_win_is_seen_from_each_of_its_cells() {
    let mut g = GameBoard::new(5, 6);
    for col in 1..=3 {
        g.place("milk", col).unwrap();
    }
    assert_eq!(g.check(Some((3, 1))), GameResult::InProgress);
    let text = g.place("milk", 4).unwrap();
    assert!(text.ends_with("🥛 wins!\n"));
    for col in 1..=4 {
        assert_eq!(g.check(Some((3, col))), GameResult::Win(BoardLocation::Milk));
        assert_eq!(g.check_horizontal(3, col), (true, BoardLocation::Milk));
        assert_eq!(g.check_vertical(3, col), (false, BoardLocation::Milk));
    }
    assert_eq!(g.check(None), GameResult::Win(BoardLocation::Milk));
    assert_eq!(g.check(Some((2, 1))), GameResult::InProgress);
    assert_eq!(g.check_horizontal(4, 1), (false, BoardLocation::Wall));
}

#[test]
fn diagonal_win_is_seen_from_each_of_its_cells() {
    let mut g = GameBoard::new(5, 6);
    let moves = [
        ("cookie", 1),
        ("milk", 2),
        ("cookie", 2),
        ("milk", 3),
        ("milk", 3),
        ("cookie", 3),
        ("cookie", 4),
        ("milk", 4),
        ("cookie", 4),
    ];
    for r in drop_all(&mut g, &moves) {
        assert!(!r.unwrap().contains("wins"));
    }
    assert_eq!(g.check(None), GameResult::InProgress);
    let text = g.place("cookie", 4).unwrap();
    assert!(text.ends_with("🍪 wins!\n"));
    for (row, col) in [(3usize, 1usize), (2, 2), (1, 3), (0, 4)] {
        assert_eq!(g.check(Some((row, col))), GameResult::Win(BoardLocation::Cookie));
        assert_eq!(g.check_diagonal(row, col), (true, BoardLocation::Cookie));
    }
    assert_eq!(g.check(None), GameResult::Win(BoardLocation::Cookie));
}

#[test]
fn falling_diagonal_win() {
    let mut g = GameBoard::new(5, 6);
    let moves = [
        ("cookie", 4),
        ("milk", 3),
        ("cookie", 3),
        ("milk", 2),
        ("milk", 2),
        ("cookie", 2),
        ("cookie", 1),
        ("milk", 1),
        ("cookie", 1),
    ];
    for r in drop_all(&mut g, &moves) {
        assert!(!r.unwrap().contains("wins"));
    }
    let text = g.place("cookie", 1).unwrap();
    assert!(text.ends_with("🍪 wins!\n"));
    for (row, col) in [(0usize, 1usize), (1, 2), (2, 3), (3, 4)] {
        assert_eq!(g.check(Some((row, col))), GameResult::Win(BoardLocation::Cookie));
    }
}

#[test]
fn three_in_a_row_is_no_win() {
    let mut g = GameBoard::new(5, 6);
    for col in 1..=3 {
        g.place("cookie", col).unwrap();
    }
    g.place("milk", 4).unwrap();
    assert_eq!(g.game_status(), GameResult::InProgress);
    assert_eq!(g.check(None), GameResult::InProgress);
}

#[test]
fn status_is_the_same_on_every_read() {
    let mut g = GameBoard::new(5, 6);
    g.place("milk", 3).unwrap();
    g.place("cookie", 3).unwrap();
    let first = g.status();
    let second = g.status();
    assert_eq!(first, second);
}

#[test]
fn reset_gives_a_fresh_board() {
    let mut g = GameBoard::new(5, 6);
    for _ in 0..4 {
        g.place("cookie", 2).unwrap();
    }
    assert!(g.game_status().is_over());
    let text = g.reset();
    assert_eq!(text, FRESH);
    let fresh = GameBoard::new(5, 6);
    assert_eq!(g.status(), fresh.status());
    assert_eq!(g.game_status(), GameResult::InProgress);
    assert!(g.place("milk", 1).is_ok());

    let mut small = GameBoard::new(3, 4);
    small.place("milk", 2).unwrap();
    assert_eq!(small.reset(), GameBoard::new(3, 4).status());
}

#[test]
fn walls_survive_play() {
    let mut g = GameBoard::new(5, 6);
    for col in 0..7 {
        for team in ["milk", "cookie"] {
            let _ = g.place(team, col);
        }
    }
    for row in 0..5 {
        assert_eq!(g.cell(row, 0), BoardLocation::Wall);
        assert_eq!(g.cell(row, 5), BoardLocation::Wall);
    }
    for col in 0..6 {
        assert_eq!(g.cell(4, col), BoardLocation::Wall);
    }
}
