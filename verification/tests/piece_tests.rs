use tetris_core::piece::{index, Cell, Piece, Type};

const ALL_TYPES: [Type; 7] = [
    Type::I,
    Type::T,
    Type::O,
    Type::L,
    Type::J,
    Type::S,
    Type::Z,
];

#[test]
fn index_with_positive_offset_adds() {
    assert_eq!(index(2, 5), Some(7));
    assert_eq!(index(0, 0), Some(0));
}

#[test]
fn index_with_negative_offset_subtracts() {
    assert_eq!(index(3, -3), Some(0));
    assert_eq!(index(5, -2), Some(3));
}

#[test]
fn index_below_zero_is_out_of_range() {
    assert_eq!(index(0, -1), None);
    assert_eq!(index(2, -3), None);
}

#[test]
fn index_above_usize_max_is_out_of_range() {
    assert_eq!(index(usize::MAX, 1), None);
    assert_eq!(index(usize::MAX, i32::MAX), None);
}

#[test]
fn new_piece_starts_in_canonical_orientation() {
    let p = Piece::new(17, 3, Type::I);
    assert_eq!(p.row_offset(), 17);
    assert_eq!(p.column_offset(), 3);
    assert_eq!(p.piece_type(), Type::I);
}

#[test]
fn movement_primitives_adjust_offsets_only() {
    let mut p = Piece::new(5, 5, Type::T);
    p.move_down();
    assert_eq!((p.row_offset(), p.column_offset()), (4, 5));
    p.revert_move_down();
    assert_eq!((p.row_offset(), p.column_offset()), (5, 5));
    p.move_left();
    assert_eq!((p.row_offset(), p.column_offset()), (5, 4));
    p.move_right();
    assert_eq!((p.row_offset(), p.column_offset()), (5, 5));
}

#[test]
fn i_piece_canonical_shape_occupies_second_row() {
    let p = Piece::new(0, 0, Type::I);
    let shape = p.shape();
    assert_eq!(shape.len(), 4);
    for row in shape.iter() {
        assert_eq!(row.len(), 4);
    }
    for j in 0..4 {
        assert!(shape[0][j].0.is_none());
        assert!(shape[1][j].0.is_some());
        assert!(shape[2][j].0.is_none());
        assert!(shape[3][j].0.is_none());
    }
}

#[test]
fn i_piece_rotated_clockwise_occupies_third_column() {
    let mut p = Piece::new(0, 0, Type::I);
    p.rotate_clockwise();
    let shape = p.shape();
    for i in 0..4 {
        for j in 0..4 {
            assert_eq!(shape[i][j].0.is_some(), j == 2, "cell ({}, {})", i, j);
        }
    }
}

#[test]
fn t_piece_rotation_follows_quarter_cycle_rule() {
    // rotated[col][size - 1 - row] == original[row][col]
    let mut p = Piece::new(0, 0, Type::T);
    let original: Vec<Vec<Cell>> = p.shape().clone();
    let size = original.len();
    p.rotate_clockwise();
    let rotated = p.shape();
    for i in 0..size {
        for j in 0..size {
            assert_eq!(
                rotated[j][size - 1 - i].0.is_some(),
                original[i][j].0.is_some(),
                "cell ({}, {})",
                i,
                j
            );
        }
    }
}

#[test]
fn rotating_four_times_clockwise_restores_the_shape() {
    for t in ALL_TYPES {
        let mut p = Piece::new(2, 3, t);
        let original = p.shape().clone();
        for _ in 0..4 {
            p.rotate_clockwise();
        }
        assert_eq!(*p.shape(), original);
        assert_eq!(p.row_offset(), 2);
        assert_eq!(p.column_offset(), 3);
    }
}

#[test]
fn rotating_four_times_anticlockwise_restores_the_shape() {
    for t in ALL_TYPES {
        let mut p = Piece::new(0, 0, t);
        let original = p.shape().clone();
        for _ in 0..4 {
            p.rotate_anticlockwise();
        }
        assert_eq!(*p.shape(), original);
    }
}

#[test]
fn anticlockwise_undoes_clockwise() {
    for t in ALL_TYPES {
        let mut p = Piece::new(0, 0, t);
        let original = p.shape().clone();
        p.rotate_clockwise();
        p.rotate_anticlockwise();
        assert_eq!(*p.shape(), original);
    }
}

#[test]
fn o_piece_rotation_is_a_no_op_in_effect() {
    let mut p = Piece::new(0, 0, Type::O);
    let original = p.shape().clone();
    p.rotate_clockwise();
    assert_eq!(*p.shape(), original);
}

#[test]
fn horizontal_center_offset_is_half_the_size_rounded_up() {
    for (t, expected) in [
        (Type::I, 2),
        (Type::T, 2),
        (Type::O, 1),
        (Type::L, 2),
        (Type::J, 2),
        (Type::S, 2),
        (Type::Z, 2),
    ] {
        let p = Piece::new(0, 0, t);
        assert_eq!(p.horizontal_center_offset(), expected, "{:?}", t);
    }
}

#[test]
fn empty_row_offset_is_the_first_occupied_shape_row() {
    for (t, expected) in [
        (Type::I, 1),
        (Type::T, 1),
        (Type::O, 0),
        (Type::L, 1),
        (Type::J, 1),
        (Type::S, 1),
        (Type::Z, 1),
    ] {
        let p = Piece::new(0, 0, t);
        assert_eq!(p.empty_row_offset(), expected, "{:?}", t);
    }
}

#[test]
fn every_shape_is_square_with_the_kinds_size() {
    for (t, size) in [
        (Type::I, 4),
        (Type::T, 3),
        (Type::O, 2),
        (Type::L, 3),
        (Type::J, 3),
        (Type::S, 3),
        (Type::Z, 3),
    ] {
        let mut p = Piece::new(0, 0, t);
        for _ in 0..4 {
            p.rotate_clockwise();
            let shape = p.shape();
            assert_eq!(shape.len(), size);
            for row in shape.iter() {
                assert_eq!(row.len(), size);
            }
        }
    }
}

#[test]
fn every_shape_has_four_occupied_cells() {
    for t in ALL_TYPES {
        let mut p = Piece::new(0, 0, t);
        for _ in 0..4 {
            let occupied: usize = p
                .shape()
                .iter()
                .map(|row| row.iter().filter(|c| c.0.is_some()).count())
                .sum();
            assert_eq!(occupied, 4, "{:?}", t);
            p.rotate_clockwise();
        }
    }
}
