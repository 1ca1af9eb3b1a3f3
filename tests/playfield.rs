use rand::rngs::StdRng;
use rand::SeedableRng;
use raytris::falling_piece::{FallingPiece, Orientation, Tetromino};
use raytris::playfield::{InputSnapshot, LineClearMessage, MessageType, Playfield};

fn idle() -> InputSnapshot {
    InputSnapshot::default()
}

fn fresh(seed: u64) -> (Playfield, StdRng) {
    let mut rng = StdRng::seed_from_u64(seed);
    let pf = Playfield::new(&mut rng);
    (pf, rng)
}

fn fill_row(pf: &mut Playfield, row: usize) {
    for i in 0..Playfield::WIDTH {
        pf.grid[row][i] = Tetromino::J;
    }
}

fn grid_is_empty(pf: &Playfield) -> bool {
    pf.grid.iter().all(|r| r.iter().all(|c| *c == Tetromino::Empty))
}

#[test]
fn message_constructors() {
    let m = LineClearMessage::new();
    assert_eq!(m.message, MessageType::Empty);
    assert_eq!(m.timer, 0);
    let t = LineClearMessage::from(MessageType::Tetris);
    assert_eq!(t.message, MessageType::Tetris);
    assert_eq!(t.timer, LineClearMessage::DURATION);
    assert_eq!(LineClearMessage::DURATION, 180);
}

#[test]
fn new_session_is_empty() {
    let (pf, _) = fresh(1);
    assert!(grid_is_empty(&pf));
    assert_eq!(pf.score, 0);
    assert_eq!(pf.falling_piece.tetromino, Tetromino::Empty);
    assert_eq!(pf.holding_piece, Tetromino::Empty);
    assert!(pf.can_swap);
    assert!(!pf.has_lost);
    assert_eq!(pf.next_queue.len(), 7);
}

#[test]
fn single_row_clear_scores_combo() {
    let (mut pf, _) = fresh(2);
    fill_row(&mut pf, 39);
    pf.grid[38][0] = Tetromino::T;
    pf.clear_lines();
    assert_eq!(pf.score, 150);
    assert_eq!(pf.combo, 1);
    assert_eq!(pf.b2b, 0);
    assert_eq!(pf.message, LineClearMessage::from(MessageType::Single));
    assert_eq!(pf.grid[39][0], Tetromino::T);
    assert_eq!(pf.grid[38][0], Tetromino::Empty);
    assert_eq!(pf.grid[39][1], Tetromino::Empty);
}

#[test]
fn row_sizes_score_base_points() {
    for (rows, base, kind) in [
        (2usize, 300u64, MessageType::Double),
        (3, 500, MessageType::Triple),
        (4, 800, MessageType::Tetris),
    ] {
        let (mut pf, _) = fresh(3);
        for r in 0..rows {
            fill_row(&mut pf, 39 - r);
        }
        pf.grid[39 - rows][5] = Tetromino::S;
        pf.clear_lines();
        assert_eq!(pf.score, base + 50);
        assert_eq!(pf.message.message, kind);
        assert_eq!(pf.grid[39][5], Tetromino::S);
    }
}

#[test]
fn back_to_back_tetris_gets_bonus() {
    let (mut pf, _) = fresh(4);
    for r in 36..40 {
        fill_row(&mut pf, r);
    }
    pf.grid[35][0] = Tetromino::T;
    pf.clear_lines();
    assert_eq!(pf.score, 850);
    assert_eq!(pf.b2b, 1);
    for r in 36..40 {
        fill_row(&mut pf, r);
    }
    pf.grid[35][0] = Tetromino::T;
    pf.clear_lines();
    assert_eq!(pf.combo, 2);
    assert_eq!(pf.b2b, 2);
    assert_eq!(pf.score, 850 + 1200 + 100);
    assert_eq!(pf.message.message, MessageType::Tetris);
}

#[test]
fn smaller_clear_resets_back_to_back() {
    let (mut pf, _) = fresh(5);
    pf.b2b = 3;
    fill_row(&mut pf, 39);
    pf.grid[38][0] = Tetromino::T;
    pf.clear_lines();
    assert_eq!(pf.b2b, 0);
    assert_eq!(pf.score, 150);
}

#[test]
fn all_clear_adds_bonus_and_replaces_message() {
    let (mut pf, _) = fresh(6);
    fill_row(&mut pf, 39);
    pf.clear_lines();
    assert!(grid_is_empty(&pf));
    assert_eq!(pf.score, 50 + 100 + 3500);
    assert_eq!(pf.message, LineClearMessage::from(MessageType::AllClear));
}

#[test]
fn all_clear_with_back_to_back_is_raised() {
    let (mut pf, _) = fresh(7);
    pf.b2b = 1;
    for r in 36..40 {
        fill_row(&mut pf, r);
    }
    pf.clear_lines();
    assert_eq!(pf.b2b, 2);
    assert_eq!(pf.score, 50 + 1200 + 5250);
    assert_eq!(pf.message.message, MessageType::AllClear);
}

#[test]
fn lock_without_clear_resets_combo() {
    let (mut pf, _) = fresh(8);
    pf.combo = 4;
    pf.grid[39][0] = Tetromino::T;
    pf.clear_lines();
    assert_eq!(pf.combo, 0);
    assert_eq!(pf.score, 0);
    assert_eq!(pf.grid[39][0], Tetromino::T);
}

#[test]
fn at_most_four_rows_clear_at_once() {
    let (mut pf, _) = fresh(9);
    for r in 34..40 {
        fill_row(&mut pf, r);
    }
    pf.clear_lines();
    assert_eq!(pf.message.message, MessageType::Tetris);
    assert!(pf.grid[38].iter().all(|c| *c == Tetromino::J));
    assert!(pf.grid[39].iter().all(|c| *c == Tetromino::J));
    assert!(pf.grid[37].iter().all(|c| *c == Tetromino::Empty));
}

#[test]
fn first_tick_spawns_from_queue() {
    let (mut pf, mut rng) = fresh(10);
    let next = pf.next_queue.index(0);
    assert!(!pf.update(&idle(), &mut rng));
    assert_eq!(pf.falling_piece.tetromino, next);
    assert_eq!(pf.falling_piece.position, (Playfield::SPAWN_COLUMN, Playfield::SPAWN_ROW));
    assert_eq!(pf.falling_piece.orientation, Orientation::Up);
    assert!(pf.next_queue.len() >= 5);
}

#[test]
fn gravity_descends_every_twenty_ticks() {
    let (mut pf, mut rng) = fresh(11);
    pf.update(&idle(), &mut rng);
    let y0 = pf.falling_piece.position.1;
    for tick in 2..=60 {
        pf.update(&idle(), &mut rng);
        let expected = y0 + ((tick - 1) / 20) as i8;
        assert_eq!(pf.falling_piece.position.1, expected, "tick {}", tick);
    }
}

#[test]
fn soft_drop_descends_every_tick() {
    let (mut pf, mut rng) = fresh(12);
    let down = InputSnapshot { soft_drop_held: true, ..idle() };
    pf.update(&down, &mut rng);
    let y0 = pf.falling_piece.position.1;
    for k in 1..=10 {
        pf.update(&down, &mut rng);
        assert_eq!(pf.falling_piece.position.1, y0 + k);
    }
}

#[test]
fn hard_drop_scores_two_per_row() {
    let (mut pf, mut rng) = fresh(13);
    pf.update(&idle(), &mut rng);
    let ghost = pf.get_ghost_piece();
    let distance = (ghost.position.1 - pf.falling_piece.position.1) as u64;
    assert!(distance > 0);
    let drop = InputSnapshot { hard_drop: true, ..idle() };
    assert!(pf.update(&drop, &mut rng));
    assert_eq!(pf.score, 2 * distance);
    assert!(pf.can_swap);
}

#[test]
fn hard_drop_on_the_stack_scores_nothing() {
    let (mut pf, mut rng) = fresh(14);
    for i in 0..9 {
        pf.grid[20][i] = Tetromino::Z;
    }
    pf.update(&idle(), &mut rng);
    let ghost = pf.get_ghost_piece();
    assert_eq!(ghost.position, pf.falling_piece.position);
    let drop = InputSnapshot { hard_drop: true, ..idle() };
    assert!(pf.update(&drop, &mut rng));
    assert_eq!(pf.score, 0);
    assert_eq!(pf.grid[20][9], Tetromino::Empty);
    assert!(pf.grid[19].iter().any(|c| *c != Tetromino::Empty));
}

#[test]
fn blocked_spawn_loses_and_freezes() {
    let (mut pf, mut rng) = fresh(15);
    for j in 16..20 {
        for i in 2..8 {
            pf.grid[j][i] = Tetromino::O;
        }
    }
    pf.update(&idle(), &mut rng);
    let drop = InputSnapshot { hard_drop: true, ..idle() };
    assert!(pf.update(&drop, &mut rng));
    assert!(pf.has_lost);
    let score = pf.score;
    let piece = pf.falling_piece;
    let grid = pf.grid;
    for input in [idle(), drop, InputSnapshot { swap: true, left_pressed: true, ..idle() }] {
        assert!(!pf.update(&input, &mut rng));
        assert!(pf.has_lost);
        assert_eq!(pf.score, score);
        assert_eq!(pf.falling_piece.position, piece.position);
        assert_eq!(pf.grid, grid);
    }
    let restart = InputSnapshot { restart: true, ..idle() };
    pf.update(&restart, &mut rng);
    assert!(!pf.has_lost);
    assert_eq!(pf.score, score);
}

#[test]
fn swap_is_blocked_until_next_lock() {
    let (mut pf, mut rng) = fresh(16);
    pf.update(&idle(), &mut rng);
    let first = pf.falling_piece.tetromino;
    let swap = InputSnapshot { swap: true, ..idle() };
    pf.update(&swap, &mut rng);
    assert!(!pf.can_swap);
    assert_eq!(pf.holding_piece, first);
    let second = pf.falling_piece.tetromino;
    assert_ne!(second, Tetromino::Empty);
    pf.update(&swap, &mut rng);
    assert!(!pf.can_swap);
    assert_eq!(pf.holding_piece, first);
    assert_eq!(pf.falling_piece.tetromino, second);
    let drop = InputSnapshot { hard_drop: true, ..idle() };
    assert!(pf.update(&drop, &mut rng));
    assert!(pf.can_swap);
    pf.update(&swap, &mut rng);
    assert_eq!(pf.falling_piece.tetromino, first);
    assert!(!pf.can_swap);
}

#[test]
fn failed_rotation_changes_nothing() {
    let (mut pf, mut rng) = fresh(17);
    let piece = FallingPiece::new(Tetromino::T, (4, 30));
    for j in 0..40 {
        for i in 0..10 {
            pf.grid[j][i] = Tetromino::L;
        }
    }
    for c in piece.tetromino_map.iter() {
        pf.grid[(c.1 + 30) as usize][(c.0 + 4) as usize] = Tetromino::Empty;
    }
    pf.falling_piece = piece;
    let before = pf.falling_piece;
    let cw = InputSnapshot { rotate_clockwise: true, ..idle() };
    assert!(!pf.update(&cw, &mut rng));
    assert_eq!(pf.falling_piece.position, before.position);
    assert_eq!(pf.falling_piece.orientation, before.orientation);
    assert_eq!(pf.falling_piece.tetromino_map, before.tetromino_map);
}

#[test]
fn rotation_kicks_off_the_wall() {
    let (mut pf, mut rng) = fresh(18);
    let mut piece = FallingPiece::new(Tetromino::T, (0, 30));
    piece.turn(raytris::falling_piece::RotationType::Clockwise);
    pf.falling_piece = piece;
    let ccw = InputSnapshot { rotate_counter_clockwise: true, ..idle() };
    pf.update(&ccw, &mut rng);
    assert_eq!(pf.falling_piece.orientation, Orientation::Up);
    assert_eq!(pf.falling_piece.position, (1, 30));
}

#[test]
fn tap_and_autoshift() {
    let (mut pf, mut rng) = fresh(19);
    pf.update(&idle(), &mut rng);
    let x0 = pf.falling_piece.position.0;
    let tap = InputSnapshot { left_pressed: true, left_held: true, ..idle() };
    pf.update(&tap, &mut rng);
    assert_eq!(pf.falling_piece.position.0, x0 - 1);
    let hold = InputSnapshot { left_held: true, ..idle() };
    for _ in 0..6 {
        pf.update(&hold, &mut rng);
    }
    assert_eq!(pf.falling_piece.position.0, x0 - 1);
    pf.update(&hold, &mut rng);
    assert_eq!(pf.falling_piece.position.0, x0 - 2);
    pf.update(&hold, &mut rng);
    assert_eq!(pf.falling_piece.position.0, x0 - 3);
}

#[test]
fn ghost_rests_on_the_floor() {
    let (mut pf, _) = fresh(20);
    pf.falling_piece = FallingPiece::new(Tetromino::T, (4, 19));
    let ghost = pf.get_ghost_piece();
    assert_eq!(ghost.position, (4, 39));
    assert_eq!(ghost.tetromino_map, pf.falling_piece.tetromino_map);
    pf.grid[30][4] = Tetromino::I;
    assert_eq!(pf.get_ghost_piece().position, (4, 29));
}

#[test]
fn restart_keeps_score() {
    let (mut pf, mut rng) = fresh(21);
    pf.score = 1234;
    pf.grid[39][3] = Tetromino::T;
    pf.restart(&mut rng);
    assert_eq!(pf.score, 1234);
    assert!(grid_is_empty(&pf));
    assert!(pf.can_swap);
}

#[test]
fn grounded_piece_locks_after_lock_delay() {
    let (mut pf, mut rng) = fresh(22);
    pf.falling_piece = FallingPiece::new(Tetromino::T, (4, 39));
    for tick in 1..=30 {
        assert!(!pf.update(&idle(), &mut rng), "tick {}", tick);
        assert_eq!(pf.falling_piece.position, (4, 39));
        assert_eq!(pf.lock_delay_frames as usize, tick);
    }
    assert!(pf.update(&idle(), &mut rng));
    assert_eq!(pf.grid[39][3], Tetromino::T);
    assert_eq!(pf.grid[39][4], Tetromino::T);
    assert_eq!(pf.grid[39][5], Tetromino::T);
    assert_eq!(pf.grid[38][4], Tetromino::T);
    assert_eq!(pf.falling_piece.position, (Playfield::SPAWN_COLUMN, Playfield::SPAWN_ROW));
    assert!(pf.can_swap);
}

#[test]
fn refused_swap_keeps_held_piece() {
    let (mut pf, mut rng) = fresh(23);
    pf.update(&idle(), &mut rng);
    let swap = InputSnapshot { swap: true, ..idle() };
    pf.update(&swap, &mut rng);
    let held = pf.holding_piece;
    let active = pf.falling_piece.tetromino;
    assert!(!pf.update(&swap, &mut rng));
    assert_eq!(pf.holding_piece, held);
    assert_eq!(pf.falling_piece.tetromino, active);
    assert!(!pf.can_swap);
}

#[test]
fn swap_with_held_piece_brings_it_in() {
    let (mut pf, mut rng) = fresh(24);
    pf.update(&idle(), &mut rng);
    pf.holding_piece = Tetromino::O;
    let active = pf.falling_piece.tetromino;
    let swap = InputSnapshot { swap: true, ..idle() };
    assert!(!pf.update(&swap, &mut rng));
    assert_eq!(pf.holding_piece, active);
    assert_eq!(pf.falling_piece.tetromino, Tetromino::O);
    assert_eq!(pf.falling_piece.position, (Playfield::SPAWN_COLUMN, Playfield::SPAWN_ROW));
}

#[test]
fn queue_never_shows_an_empty_piece() {
    let (mut pf, mut rng) = fresh(25);
    let drop = InputSnapshot { hard_drop: true, ..idle() };
    for _ in 0..60 {
        pf.update(&drop, &mut rng);
        if pf.has_lost {
            pf.update(&InputSnapshot { restart: true, ..idle() }, &mut rng);
        }
        assert!(pf.next_queue.len() >= 5);
        for i in 0..pf.next_queue.len() {
            assert_ne!(pf.next_queue.index(i), Tetromino::Empty);
        }
    }
}

#[test]
fn draws_come_in_whole_bags() {
    let mut rng = StdRng::seed_from_u64(26);
    let mut q = raytris::next_queue::NextQueue::new(&mut rng);
    for _ in 0..5 {
        let mut drawn = Vec::new();
        for _ in 0..7 {
            q.push_new_bag_if_needed(&mut rng);
            drawn.push(q.get_next_tetromino());
        }
        for t in [
            Tetromino::I,
            Tetromino::O,
            Tetromino::T,
            Tetromino::S,
            Tetromino::Z,
            Tetromino::J,
            Tetromino::L,
        ] {
            assert_eq!(drawn.iter().filter(|d| **d == t).count(), 1);
        }
        assert_eq!(q.len(), 7);
    }
}

#[test]
fn validity_check() {
    let (mut pf, mut rng) = fresh(27);
    assert!(pf.is_valid());
    pf.update(&idle(), &mut rng);
    assert!(pf.is_valid());
    let mut turned = FallingPiece::new(Tetromino::L, (4, 19));
    turned.turn(raytris::falling_piece::RotationType::OneEighty);
    pf.falling_piece = turned;
    assert!(pf.is_valid());
    pf.falling_piece.orientation = Orientation::Left;
    assert!(!pf.is_valid());
    pf.falling_piece = FallingPiece::new(Tetromino::I, (9, 19));
    assert!(!pf.is_valid());
}
