use tetris_core::draw::get_cell_color;
use tetris_core::game::Game;
use tetris_core::piece::{Cell, Type};

/// The columns spanned by the occupied cells of the active piece, on the
/// board.
fn active_piece_columns(game: &Game) -> (i32, i32) {
    let piece = game.piece().expect("an active piece");
    let shape = piece.shape();
    let mut min_col = i32::MAX;
    let mut max_col = i32::MIN;
    for row in shape.iter() {
        for (j, cell) in row.iter().enumerate() {
            if cell.0.is_some() {
                let col = j as i32 + piece.column_offset();
                min_col = min_col.min(col);
                max_col = max_col.max(col);
            }
        }
    }
    (min_col, max_col)
}

fn frozen_cell_count(game: &Game) -> usize {
    game.board()
        .cells()
        .iter()
        .map(|row| row.iter().filter(|c| c.0.is_some()).count())
        .sum()
}

#[test]
fn new_game_is_empty_and_idle() {
    let game = Game::new();
    assert_eq!(game.score(), 0);
    assert!(game.piece().is_none());
    assert!(game.next_pieces().is_empty());
    assert!(!game.is_game_over());
    assert_eq!(game.board().height(), 20);
    assert_eq!(game.board().width(), 10);
    assert_eq!(frozen_cell_count(&game), 0);
}

#[test]
fn run_spawns_the_first_piece_at_the_spawn_position() {
    let mut game = Game::new();
    game.run();
    let piece = game.piece().expect("run spawns a piece");
    assert_eq!(piece.row_offset(), 20 - piece.empty_row_offset() as i32);
    let expected_column = 5 - piece.horizontal_center_offset() as i32;
    assert_eq!(piece.column_offset(), expected_column);
    // The queue is refilled to its capacity after the pop.
    assert_eq!(game.next_pieces().len(), 3);
    assert!(!game.is_game_over());
    assert_eq!(game.score(), 0);
    // Spawning froze nothing.
    assert_eq!(frozen_cell_count(&game), 0);
}

#[test]
fn commands_without_an_active_piece_are_no_ops() {
    let mut game = Game::new();
    game.move_left();
    game.move_right();
    game.rotate_clockwise();
    game.move_down();
    game.pause();
    assert!(game.piece().is_none());
    assert_eq!(game.score(), 0);
    assert_eq!(frozen_cell_count(&game), 0);
    assert!(!game.is_game_over());
}

#[test]
fn move_left_stops_at_the_wall() {
    let mut game = Game::new();
    game.run();
    for _ in 0..12 {
        game.move_left();
    }
    let (min_col, _) = active_piece_columns(&game);
    assert_eq!(min_col, 0);
    // One more left is rejected: the piece visibly stays put.
    let before = game.piece().unwrap().column_offset();
    game.move_left();
    assert_eq!(game.piece().unwrap().column_offset(), before);
}

#[test]
fn move_right_stops_at_the_wall() {
    let mut game = Game::new();
    game.run();
    for _ in 0..12 {
        game.move_right();
    }
    let (_, max_col) = active_piece_columns(&game);
    assert_eq!(max_col, 9);
    let before = game.piece().unwrap().column_offset();
    game.move_right();
    assert_eq!(game.piece().unwrap().column_offset(), before);
}

#[test]
fn move_down_accepts_a_legal_descent() {
    let mut game = Game::new();
    game.run();
    let before = game.piece().unwrap().row_offset();
    game.move_down();
    assert_eq!(game.piece().unwrap().row_offset(), before - 1);
    assert_eq!(frozen_cell_count(&game), 0);
    assert_eq!(game.score(), 0);
}

#[test]
fn rotation_is_reverted_when_it_collides() {
    let mut game = Game::new();
    game.run();
    // Push the piece against the left wall, where a rotation may collide.
    for _ in 0..12 {
        game.move_left();
    }
    // Whatever happens, the piece stays legal and the board is untouched.
    game.rotate_clockwise();
    assert!(game.piece().is_some());
    assert_eq!(frozen_cell_count(&game), 0);
}

#[test]
fn first_lock_freezes_the_piece_and_keeps_the_score() {
    // On an empty board, a single locked piece can never complete a
    // 10-cell-wide row, so the first lock leaves the score unchanged and
    // spawns the next piece.
    let mut game = Game::new();
    game.run();
    let queue_front = game.next_pieces().front().unwrap().piece_type();
    let second_in_queue = game.next_pieces().get(1).unwrap().piece_type();
    let mut descents = 0;
    while frozen_cell_count(&game) == 0 {
        assert!(descents < 30, "the piece must lock within 30 descents");
        game.move_down();
        descents += 1;
    }
    assert_eq!(frozen_cell_count(&game), 4);
    assert_eq!(game.score(), 0);
    assert!(!game.is_game_over());
    // The next piece spawned from the front of the look-ahead queue, and
    // the queue slid forward and was refilled to capacity.
    let piece = game.piece().expect("a new piece spawned after the lock");
    assert_eq!(piece.piece_type(), queue_front);
    assert_eq!(game.next_pieces().len(), 3);
    assert_eq!(
        game.next_pieces().front().unwrap().piece_type(),
        second_in_queue
    );
}

#[test]
fn stacking_pieces_reaches_game_over_and_commands_become_no_ops() {
    // Drop every piece straight down: the stack grows under the spawn
    // columns until a lock leaves the visible field or a spawn collides;
    // either way the game transitions to game over with no active piece.
    let mut game = Game::new();
    game.run();
    let mut ticks = 0;
    while !game.is_game_over() {
        assert!(ticks < 5000, "stacking must end the game");
        game.move_down();
        ticks += 1;
    }
    assert!(game.piece().is_none());
    let score = game.score();
    let cells_before = game.board().cells().clone();
    // Post-game-over commands are no-ops.
    game.move_down();
    game.move_left();
    game.move_right();
    game.rotate_clockwise();
    game.run();
    game.pause();
    assert!(game.is_game_over());
    assert!(game.piece().is_none());
    assert_eq!(game.score(), score);
    assert_eq!(*game.board().cells(), cells_before);
}

#[test]
fn cell_colors_cover_every_kind() {
    assert_eq!(get_cell_color(&Cell(Some(Type::I))), "cyan");
    assert_eq!(get_cell_color(&Cell(Some(Type::T))), "purple");
    assert_eq!(get_cell_color(&Cell(Some(Type::O))), "yellow");
    assert_eq!(get_cell_color(&Cell(Some(Type::L))), "orange");
    assert_eq!(get_cell_color(&Cell(Some(Type::J))), "blue");
    assert_eq!(get_cell_color(&Cell(Some(Type::S))), "lime");
    assert_eq!(get_cell_color(&Cell(Some(Type::Z))), "red");
    assert_eq!(get_cell_color(&Cell(None)), "#DDD");
}
