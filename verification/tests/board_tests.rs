use tetris_core::board::Board;
use tetris_core::piece::{Cell, Piece, Type};

const ALL_TYPES: [Type; 7] = [
    Type::I,
    Type::T,
    Type::O,
    Type::L,
    Type::J,
    Type::S,
    Type::Z,
];

/// The occupied-cell bounding box of a piece's current shape, as
/// (min_row, max_row, min_col, max_col) in shape-local indices.
fn occupied_bounds(piece: &Piece) -> (usize, usize, usize, usize) {
    let shape = piece.shape();
    let mut min_row = usize::MAX;
    let mut max_row = 0;
    let mut min_col = usize::MAX;
    let mut max_col = 0;
    for (i, row) in shape.iter().enumerate() {
        for (j, cell) in row.iter().enumerate() {
            if cell.0.is_some() {
                min_row = min_row.min(i);
                max_row = max_row.max(i);
                min_col = min_col.min(j);
                max_col = max_col.max(j);
            }
        }
    }
    (min_row, max_row, min_col, max_col)
}

/// A piece of kind `t`, rotated clockwise `turns` times, at the offsets.
fn placed(t: Type, turns: usize, row_offset: i32, column_offset: i32) -> Piece {
    let mut p = Piece::new(row_offset, column_offset, t);
    for _ in 0..turns {
        p.rotate_clockwise();
    }
    p
}

#[test]
fn new_board_has_the_requested_dimensions_and_empty_cells() {
    let b = Board::new(20, 10);
    assert_eq!(b.height(), 20);
    assert_eq!(b.width(), 10);
    assert_eq!(b.max_piece_size(), 4);
    assert_eq!(b.cells().len(), 24);
    for row in b.cells().iter() {
        assert_eq!(row.len(), 10);
        for cell in row.iter() {
            assert!(cell.0.is_none());
        }
    }
}

#[test]
fn collision_exhaustive_at_every_board_edge() {
    // For every piece kind and every orientation: a position whose occupied
    // cells touch an edge from the inside is legal, and one step past that
    // edge (row -1, row == height + hidden rows, column -1, column == width)
    // collides.
    let b = Board::new(20, 10);
    for t in ALL_TYPES {
        for turns in 0..4 {
            let probe = placed(t, turns, 0, 0);
            let (min_row, max_row, min_col, max_col) = occupied_bounds(&probe);

            // Bottom edge: lowest occupied cell at board row 0, then row -1.
            let at_floor = placed(t, turns, -(min_row as i32), 3);
            assert!(!b.is_colliding(&at_floor), "{:?} turns {}", t, turns);
            let below_floor = placed(t, turns, -(min_row as i32) - 1, 3);
            assert!(b.is_colliding(&below_floor), "{:?} turns {}", t, turns);

            // Top edge: highest occupied cell at board row 23, then row 24.
            let at_top = placed(t, turns, 23 - max_row as i32, 3);
            assert!(!b.is_colliding(&at_top), "{:?} turns {}", t, turns);
            let above_top = placed(t, turns, 24 - max_row as i32, 3);
            assert!(b.is_colliding(&above_top), "{:?} turns {}", t, turns);

            // Left edge: leftmost occupied cell at column 0, then column -1.
            let at_left = placed(t, turns, 5, -(min_col as i32));
            assert!(!b.is_colliding(&at_left), "{:?} turns {}", t, turns);
            let past_left = placed(t, turns, 5, -(min_col as i32) - 1);
            assert!(b.is_colliding(&past_left), "{:?} turns {}", t, turns);

            // Right edge: rightmost occupied cell at column 9, then column 10.
            let at_right = placed(t, turns, 5, 9 - max_col as i32);
            assert!(!b.is_colliding(&at_right), "{:?} turns {}", t, turns);
            let past_right = placed(t, turns, 5, 10 - max_col as i32);
            assert!(b.is_colliding(&past_right), "{:?} turns {}", t, turns);
        }
    }
}

#[test]
fn collision_with_an_occupied_cell() {
    let mut b = Board::new(20, 10);
    // Freeze an O piece at the bottom left: cells (0..2, 0..2).
    b.freeze(Piece::new(0, 0, Type::O));
    // A second O piece on the same cells collides; next to it, it does not.
    assert!(b.is_colliding(&Piece::new(0, 0, Type::O)));
    assert!(b.is_colliding(&Piece::new(1, 1, Type::O)));
    assert!(!b.is_colliding(&Piece::new(0, 2, Type::O)));
    assert!(!b.is_colliding(&Piece::new(2, 0, Type::O)));
}

#[test]
fn is_fully_in_is_bounded_to_the_visible_height() {
    let b = Board::new(20, 10);
    // Horizontal I: occupied shape row 1.  At row offset 18 its cells sit on
    // board row 19, the topmost visible row; at 19 they reach hidden row 20.
    let inside = Piece::new(18, 3, Type::I);
    assert!(!b.is_colliding(&inside));
    assert!(b.is_fully_in(&inside));
    let in_hidden_rows = Piece::new(19, 3, Type::I);
    assert!(!b.is_colliding(&in_hidden_rows));
    assert!(!b.is_fully_in(&in_hidden_rows));
}

#[test]
fn freeze_copies_exactly_the_occupied_cells() {
    let mut b = Board::new(20, 10);
    b.freeze(Piece::new(0, 3, Type::T));
    // T canonical shape: row 1 fully occupied, row 2 only the middle.
    let mut expected: Vec<(usize, usize)> = vec![(1, 3), (1, 4), (1, 5), (2, 4)];
    expected.sort();
    let mut actual: Vec<(usize, usize)> = Vec::new();
    for (i, row) in b.cells().iter().enumerate() {
        for (j, cell) in row.iter().enumerate() {
            if let Some(t) = cell.0 {
                assert_eq!(t, Type::T);
                actual.push((i, j));
            }
        }
    }
    actual.sort();
    assert_eq!(actual, expected);
}

/// Fill board row `row` at columns 0..=7 with two horizontal I pieces.
fn fill_row_cols_0_to_7(b: &mut Board, row: i32) {
    b.freeze(Piece::new(row - 1, 0, Type::I));
    b.freeze(Piece::new(row - 1, 4, Type::I));
}

/// A vertical I piece (occupying one full column over four rows) whose
/// occupied column lands on board column `col`, rows `row..row + 4`.
fn vertical_i(row: i32, col: i32) -> Piece {
    let mut p = Piece::new(row, col - 2, Type::I);
    p.rotate_clockwise();
    p
}

#[test]
fn freeze_then_clear_removes_exactly_the_completed_row() {
    let mut b = Board::new(20, 10);
    // Row 0: columns 0..=7 filled, then a vertical I on column 8.
    fill_row_cols_0_to_7(&mut b, 0);
    b.freeze(vertical_i(0, 8));
    // Row 0 still lacks column 9: nothing clears.
    let removed = b.clear_lines();
    assert_eq!(removed, Vec::<usize>::new());
    assert_eq!(b.cells().len(), 24);

    // Freeze the piece that completes column 9 on row 0.
    b.freeze(vertical_i(0, 9));
    let removed = b.clear_lines();
    assert_eq!(removed, vec![0]);
    assert_eq!(b.cells().len(), 24);
    // The two vertical I pieces reached rows 1..=3: those survive, shifted
    // down by one row.
    for i in 0..3 {
        for j in 0..10 {
            let occupied = b.cells()[i][j].0.is_some();
            assert_eq!(occupied, j == 8 || j == 9, "cell ({}, {})", i, j);
        }
    }
    for i in 3..24 {
        for j in 0..10 {
            assert!(b.cells()[i][j].0.is_none(), "cell ({}, {})", i, j);
        }
    }
}

#[test]
fn clearing_non_adjacent_rows_preserves_surviving_order() {
    let mut b = Board::new(20, 10);
    // Rows 0, 1 and 2 get columns 0..=7.
    fill_row_cols_0_to_7(&mut b, 0);
    fill_row_cols_0_to_7(&mut b, 1);
    fill_row_cols_0_to_7(&mut b, 2);
    // J rotated twice has its occupied cells on shape rows 1 (all three
    // columns) and 2 (rightmost column): complete rows 0 and 2 with it.
    // Canonical J: row 1 all, row 2 leftmost.  At columns 7..=9:
    b.freeze(Piece::new(-1, 7, Type::J));  // row 0: cols 7,8,9; row 1: col 7
    b.freeze(Piece::new(1, 7, Type::J));  // row 2: cols 7,8,9; row 3: col 7
    // Now rows 0 and 2 are full; row 1 lacks columns 8 and 9.
    let removed = b.clear_lines();
    assert_eq!(removed, vec![0, 2]);
    assert_eq!(b.cells().len(), 24);
    // Survivors keep their relative order: old row 1 (cols 0..=7) is now row
    // 0, old row 3 (col 7 only) is now row 1.
    for j in 0..10 {
        assert_eq!(b.cells()[0][j].0.is_some(), j <= 7, "row 0 col {}", j);
        assert_eq!(b.cells()[1][j].0.is_some(), j == 7, "row 1 col {}", j);
    }
    for i in 2..24 {
        for j in 0..10 {
            assert!(b.cells()[i][j].0.is_none(), "cell ({}, {})", i, j);
        }
    }
}

#[test]
fn i_piece_falls_to_the_floor_and_freezes() {
    // Spawn an I piece at row 17, column 3 on an empty board.  Its occupied
    // cells start on board row 18, so the bounding box reaches the floor
    // after 17 descents; the occupied row itself touches the floor one
    // descent later, and only the move after that collides.
    let mut b = Board::new(20, 10);
    let mut p = Piece::new(17, 3, Type::I);
    assert!(!b.is_colliding(&p));
    for step in 0..18 {
        p.move_down();
        assert!(!b.is_colliding(&p), "descent {}", step);
    }
    p.move_down();
    assert!(b.is_colliding(&p));
    p.revert_move_down();
    assert!(b.is_fully_in(&p));
    assert_eq!(p.row_offset(), -1);
    b.freeze(p);
    // The frozen row is not full: nothing clears.
    let removed = b.clear_lines();
    assert_eq!(removed, Vec::<usize>::new());
    assert_eq!(b.cells().len(), 24);
    for j in 0..10 {
        assert_eq!(b.cells()[0][j].0, if (3..7).contains(&j) { Some(Type::I) } else { None });
    }
}

#[test]
fn cleared_row_count_matches_cell_colors() {
    // Four stacked full rows clear at once.
    let mut b = Board::new(20, 10);
    for col in 0..10 {
        b.freeze(vertical_i(0, col));
    }
    let removed = b.clear_lines();
    assert_eq!(removed, vec![0, 1, 2, 3]);
    assert_eq!(b.cells().len(), 24);
    for row in b.cells().iter() {
        for cell in row.iter() {
            assert!(cell.0.is_none());
        }
    }
}

#[test]
fn width_zero_board_clears_every_row() {
    // With no columns, every row is vacuously complete.
    let mut b = Board::new(2, 0);
    let removed = b.clear_lines();
    assert_eq!(removed, vec![0, 1, 2, 3, 4, 5]);
    assert_eq!(b.cells().len(), 6);
}

#[test]
fn cell_holds_the_piece_kind_for_color() {
    let mut b = Board::new(20, 10);
    b.freeze(Piece::new(0, 0, Type::O));
    assert_eq!(b.cells()[0][0], Cell(Some(Type::O)));
    assert_eq!(b.cells()[0][2], Cell(None));
}
