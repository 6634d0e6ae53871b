use tetris_core::piece::Type;
use tetris_core::piece_type_bag_generator::PieceTypeGenerator;

fn kind_index(t: Type) -> usize {
    match t {
        Type::I => 0,
        Type::T => 1,
        Type::O => 2,
        Type::L => 3,
        Type::J => 4,
        Type::S => 5,
        Type::Z => 6,
    }
}

#[test]
fn every_window_of_seven_draws_holds_each_kind_exactly_once() {
    let mut generator = PieceTypeGenerator::new();
    // Ten consecutive bags: each aligned window of seven draws must hand out
    // each of the seven kinds exactly once, in some order.
    for bag in 0..10 {
        let mut counts = [0usize; 7];
        for _ in 0..7 {
            counts[kind_index(generator.next_piece_type())] += 1;
        }
        assert_eq!(counts, [1, 1, 1, 1, 1, 1, 1], "bag {}", bag);
    }
}

#[test]
fn no_kind_waits_longer_than_twelve_draws() {
    // A kind drawn first in one bag and last in the next waits at most 12
    // draws between appearances.
    let mut generator = PieceTypeGenerator::new();
    let mut last_seen = [0usize; 7];
    for draw in 1..=700 {
        let t = generator.next_piece_type();
        let k = kind_index(t);
        if last_seen[k] != 0 {
            assert!(draw - last_seen[k] <= 13, "kind {:?} starved", t);
        }
        last_seen[k] = draw;
    }
}
