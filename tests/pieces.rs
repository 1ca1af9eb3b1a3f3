use rand::rngs::StdRng;
use rand::SeedableRng;
use raytris::falling_piece::{FallingPiece, Orientation, RotationType, Shift, Tetromino};
use raytris::next_queue::NextQueue;

const ALL: [Tetromino; 7] = [
    Tetromino::I,
    Tetromino::O,
    Tetromino::T,
    Tetromino::S,
    Tetromino::Z,
    Tetromino::J,
    Tetromino::L,
];

#[test]
fn four_clockwise_turns_restore_every_piece() {
    for t in ALL {
        let start = FallingPiece::new(t, (4, 19));
        let mut p = start;
        for _ in 0..4 {
            p.turn(RotationType::Clockwise);
        }
        assert_eq!(p.tetromino_map, start.tetromino_map);
        assert_eq!(p.orientation, start.orientation);
        assert_eq!(p.position, start.position);
    }
}

#[test]
fn clockwise_turn_maps_cells() {
    let mut p = FallingPiece::new(Tetromino::I, (4, 19));
    p.turn(RotationType::Clockwise);
    assert_eq!(p.orientation, Orientation::Right);
    assert_eq!(p.tetromino_map, [(0, -1), (0, 0), (0, 1), (0, 2)]);
    p.turn(RotationType::CounterClockwise);
    assert_eq!(p.orientation, Orientation::Up);
    assert_eq!(p.tetromino_map, [(-1, 0), (0, 0), (1, 0), (2, 0)]);
    p.turn(RotationType::OneEighty);
    assert_eq!(p.orientation, Orientation::Down);
    assert_eq!(p.tetromino_map, [(1, 0), (0, 0), (-1, 0), (-2, 0)]);
}

#[test]
fn counter_clockwise_cycle() {
    let mut p = FallingPiece::new(Tetromino::T, (4, 19));
    p.turn(RotationType::CounterClockwise);
    assert_eq!(p.orientation, Orientation::Left);
    p.turn(RotationType::CounterClockwise);
    assert_eq!(p.orientation, Orientation::Down);
    p.turn(RotationType::CounterClockwise);
    assert_eq!(p.orientation, Orientation::Right);
    p.turn(RotationType::CounterClockwise);
    assert_eq!(p.orientation, Orientation::Up);
}

#[test]
fn initial_shapes() {
    assert_eq!(Tetromino::I.initial_tetromino_map(), [(-1, 0), (0, 0), (1, 0), (2, 0)]);
    assert_eq!(Tetromino::O.initial_tetromino_map(), [(0, -1), (1, -1), (0, 0), (1, 0)]);
    assert_eq!(Tetromino::L.initial_tetromino_map(), [(1, -1), (-1, 0), (0, 0), (1, 0)]);
    assert_eq!(Tetromino::Empty.initial_tetromino_map(), [(0, 0); 4]);
}

#[test]
fn kick_tables() {
    let mut p = FallingPiece::new(Tetromino::I, (4, 19));
    assert_eq!(p.get_offset_table(), [(0, 0), (-1, 0), (2, 0), (-1, 0), (2, 0)]);
    p.turn(RotationType::Clockwise);
    assert_eq!(p.get_offset_table(), [(-1, 0), (0, 0), (0, 0), (0, 1), (0, -2)]);
    let mut t = FallingPiece::new(Tetromino::T, (4, 19));
    t.turn(RotationType::CounterClockwise);
    assert_eq!(t.get_offset_table(), [(0, 0), (-1, 0), (-1, -1), (0, 2), (-1, 2)]);
    let mut o = FallingPiece::new(Tetromino::O, (4, 19));
    o.turn(RotationType::OneEighty);
    assert_eq!(o.get_offset_table(), [(-1, -1); 5]);
}

#[test]
fn fall_and_shift_move_by_one() {
    let mut p = FallingPiece::new(Tetromino::S, (4, 19));
    p.fall();
    assert_eq!(p.position, (4, 20));
    p.shift(Shift::Left);
    assert_eq!(p.position, (3, 20));
    p.shift(Shift::Right);
    p.shift(Shift::Right);
    assert_eq!(p.position, (5, 20));
}

fn is_bag(drawn: &[Tetromino]) -> bool {
    drawn.len() == 7 && ALL.iter().all(|t| drawn.iter().filter(|d| *d == t).count() == 1)
}

#[test]
fn new_queue_holds_one_bag() {
    let mut rng = StdRng::seed_from_u64(3);
    let mut q = NextQueue::new(&mut rng);
    assert_eq!(q.len(), 7);
    let drawn: Vec<Tetromino> = (0..7).map(|_| q.get_next_tetromino()).collect();
    assert!(is_bag(&drawn));
    assert_eq!(q.len(), 0);
}

#[test]
fn refill_goes_behind_the_remainder() {
    let mut rng = StdRng::seed_from_u64(11);
    let mut q = NextQueue::new(&mut rng);
    q.push_new_bag_if_needed(&mut rng);
    assert_eq!(q.len(), 7);
    let first = q.get_next_tetromino();
    let rest: Vec<Tetromino> = (0..6).map(|i| q.index(i)).collect();
    q.push_new_bag_if_needed(&mut rng);
    assert_eq!(q.len(), 13);
    let mut old = vec![first];
    for i in 0..6 {
        let t = q.get_next_tetromino();
        assert_eq!(t, rest[i]);
        old.push(t);
    }
    assert!(is_bag(&old));
    let next_bag: Vec<Tetromino> = (0..7).map(|_| q.get_next_tetromino()).collect();
    assert!(is_bag(&next_bag));
}

#[test]
fn index_looks_ahead_in_draw_order() {
    let mut rng = StdRng::seed_from_u64(5);
    let mut q = NextQueue::new(&mut rng);
    let ahead: Vec<Tetromino> = (0..5).map(|i| q.index(i)).collect();
    for t in ahead {
        assert_eq!(q.get_next_tetromino(), t);
    }
}

#[test]
fn push_bag_puts_pieces_last() {
    let mut rng = StdRng::seed_from_u64(8);
    let mut q = NextQueue::new(&mut rng);
    for _ in 0..5 {
        q.get_next_tetromino();
    }
    let a = q.index(0);
    let b = q.index(1);
    q.push_bag(ALL.to_vec());
    assert_eq!(q.get_next_tetromino(), a);
    assert_eq!(q.get_next_tetromino(), b);
    let drawn: Vec<Tetromino> = (0..7).map(|_| q.get_next_tetromino()).collect();
    let mut expected = ALL.to_vec();
    expected.reverse();
    assert_eq!(drawn, expected);
}

#[test]
fn bags_are_shuffled() {
    let mut differs = false;
    for seed in 0..20 {
        let mut rng = StdRng::seed_from_u64(seed);
        let q = NextQueue::new(&mut rng);
        let order: Vec<Tetromino> = (0..7).map(|i| q.index(6 - i)).collect();
        if order != ALL.to_vec() {
            differs = true;
        }
    }
    assert!(differs);
}

#[test]
fn shift_at_the_ends_of_the_column_range() {
    let mut p = FallingPiece::new(Tetromino::T, (127, 0));
    p.shift(Shift::Left);
    assert_eq!(p.position, (126, 0));
    p.shift(Shift::Right);
    p.shift(Shift::Left);
    assert_eq!(p.position, (126, 0));
}
