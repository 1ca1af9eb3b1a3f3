//! The board: grid, active piece, held piece, piece supply and session counters,
//! advanced one tick at a time.

use crate::falling_piece::{
    initial_shape, lemma_shape_compact, next_orientation, offset_table_of, shape_is_compact,
    shape_of, turned_shape, CoordinatePair, FallingPiece, Orientation, RotationType, Shift,
    Tetromino, TetrominoMap,
};
use crate::next_queue::{is_bag, lemma_bag_has_no_empty, no_empty, NextQueue};
use rand::rngs::StdRng;
use vstd::prelude::*;

verus! {

#[derive(Clone, Copy, PartialEq, Eq, Debug, Structural)]
pub enum MessageType {
    Single,
    Double,
    Triple,
    Tetris,
    AllClear,
    Empty,
}

/// The announcement of the last line clear and the ticks it stays on screen.
#[derive(Clone, Copy, PartialEq, Eq, Debug, Structural)]
pub struct LineClearMessage {
    pub message: MessageType,
    pub timer: u8,
}

impl LineClearMessage {
    pub const DURATION: u8 = 180;

    pub fn new() -> (r: LineClearMessage)
        ensures
            r.message == MessageType::Empty,
            r.timer == 0,
    {
        LineClearMessage { message: MessageType::Empty, timer: 0 }
    }

    pub fn from(value: MessageType) -> (r: LineClearMessage)
        ensures
            r.message == value,
            r.timer == Self::DURATION,
    {
        LineClearMessage { message: value, timer: Self::DURATION }
    }
}

/// What the player asked for during one tick: `*_pressed` and the single actions
/// are edges (pressed this tick), `*_held` are levels (currently down).
#[derive(Clone, Copy, PartialEq, Eq, Debug, Default, Structural)]
pub struct InputSnapshot {
    pub restart: bool,
    pub swap: bool,
    pub left_pressed: bool,
    pub right_pressed: bool,
    pub left_held: bool,
    pub right_held: bool,
    pub soft_drop_held: bool,
    pub hard_drop: bool,
    pub rotate_clockwise: bool,
    pub rotate_counter_clockwise: bool,
    pub rotate_one_eighty: bool,
}

pub type Row = [Tetromino; 10];

pub type Grid = [Row; 40];

/// The cell in row `j` (counted from the top) and column `i`.
pub open spec fn at(g: Grid, j: int, i: int) -> Tetromino {
    g@[j]@[i]
}

/// The square under relative cell `c` of a shape with its pivot at (`x`, `y`) is on
/// the board and empty.
pub open spec fn square_free(g: Grid, c: CoordinatePair, x: int, y: int) -> bool {
    0 <= c.0 + x < 10 && 0 <= c.1 + y < 40 && at(g, c.1 + y, c.0 + x) == Tetromino::Empty
}

/// The square under relative cell `c` of a shape with its pivot at (`x`, `y`) is on
/// the board.
pub open spec fn square_on_board(c: CoordinatePair, x: int, y: int) -> bool {
    0 <= c.0 + x < 10 && 0 <= c.1 + y < 40
}

/// A shape placed with its pivot at column `x`, row `y` lies on the board, each
/// cell on an empty square.
pub open spec fn fits(g: Grid, shape: Seq<CoordinatePair>, x: int, y: int) -> bool {
    forall|k: int| 0 <= k < 4 ==> square_free(g, #[trigger] shape[k], x, y)
}

/// A shape placed with its pivot at column `x`, row `y` lies on the board.
pub open spec fn on_board(shape: Seq<CoordinatePair>, x: int, y: int) -> bool {
    forall|k: int| 0 <= k < 4 ==> square_on_board(#[trigger] shape[k], x, y)
}

/// A compact shape on the board has its pivot near the board.
pub proof fn lemma_on_board_bounds(shape: Seq<CoordinatePair>, x: int, y: int)
    requires
        shape.len() == 4,
        shape_is_compact(shape),
        on_board(shape, x, y),
    ensures
        -2 <= x <= 11,
        -2 <= y <= 41,
{
    assert(shape[0] == shape[0]);
}

/// Relative cell `c` of a shape with its pivot at `pos` stands on square (`j`, `i`).
pub open spec fn lands_on(c: CoordinatePair, pos: (i8, i8), j: int, i: int) -> bool {
    c.0 + pos.0 == i && c.1 + pos.1 == j
}

/// One of the first `n` cells of the piece stands on square (`j`, `i`).
pub open spec fn covers(p: FallingPiece, n: int, j: int, i: int) -> bool {
    exists|k: int| 0 <= k < n && lands_on(#[trigger] p.tetromino_map@[k], p.position, j, i)
}

pub open spec fn inc_u8(x: u8) -> u8 {
    if x < u8::MAX {
        (x + 1) as u8
    } else {
        x
    }
}

pub open spec fn inc_u16(x: u16) -> u16 {
    if x < u16::MAX {
        (x + 1) as u16
    } else {
        x
    }
}

/// Points added to a score, which stops at the largest `u64`.
pub open spec fn add_points(score: u64, points: int) -> u64 {
    if score + points <= u64::MAX {
        (score + points) as u64
    } else {
        u64::MAX
    }
}

/// The rules engine of one game session.
#[derive(Clone, Debug)]
pub struct Playfield {
    pub grid: Grid,
    pub falling_piece: FallingPiece,
    pub holding_piece: Tetromino,
    pub next_queue: NextQueue,
    pub can_swap: bool,
    pub frames_since_last_fall: u8,
    pub lock_delay_frames: u8,
    pub lock_delay_moves: u8,
    pub signed_frames_pressed: i32,
    pub combo: u8,
    pub has_lost: bool,
    pub score: u64,
    pub b2b: u16,
    pub message: LineClearMessage,
}

impl Playfield {
    pub const WIDTH: usize = 10;

    pub const HEIGHT: usize = 40;

    pub const VISIBLE_HEIGHT: usize = 20;

    /// Spawn column: `(WIDTH - 1) / 2`.
    pub const SPAWN_COLUMN: i8 = 4;

    /// Spawn row: `VISIBLE_HEIGHT - 1`.
    pub const SPAWN_ROW: i8 = 19;

    const DAS: i32 = 7;

    const SOFT_DROP_FRAMES: u8 = 1;

    const GRAVITY_FRAMES: u8 = 20;

    const MAX_LOCK_DELAY_FRAMES: u8 = 30;

    const MAX_LOCK_DELAY_MOVES: u8 = 15;

    /// The active piece is turned as its tetromino allows and lies on the board.
    pub open spec fn piece_ok(&self) -> bool {
        &&& self.falling_piece.wf()
        &&& on_board(
            self.falling_piece.tetromino_map@,
            self.falling_piece.position.0 as int,
            self.falling_piece.position.1 as int,
        )
    }

    /// Between ticks: the active piece is well placed and the queue shows a full
    /// lookahead.
    pub open spec fn wf(&self) -> bool {
        &&& self.piece_ok()
        &&& self.next_queue@.len() >= NextQueue::NEXT_QUEUE_SIZE
        &&& no_empty(self.next_queue@)
    }

    /// The piece that spawns as `t`.
    pub open spec fn spawned(p: FallingPiece, t: Tetromino) -> bool {
        &&& p.tetromino == t
        &&& p.orientation == Orientation::Up
        &&& p.position == (Self::SPAWN_COLUMN, Self::SPAWN_ROW)
        &&& p.wf()
    }

    fn spawn_piece(t: Tetromino) -> (r: FallingPiece)
        ensures
            Self::spawned(r, t),
            r.tetromino_map@ == initial_shape(t),
            on_board(r.tetromino_map@, r.position.0 as int, r.position.1 as int),
    {
        let r = FallingPiece::new(t, (Self::SPAWN_COLUMN, Self::SPAWN_ROW));
        assert(on_board(r.tetromino_map@, r.position.0 as int, r.position.1 as int));
        r
    }

    /// A fresh session with an empty board and a score of zero.
    pub fn new(rng: &mut StdRng) -> (r: Playfield)
        ensures
            r.wf(),
            Self::fresh(r),
            r.score == 0,
    {
        Playfield {
            grid: [[Tetromino::Empty; 10]; 40],
            falling_piece: Self::spawn_piece(Tetromino::Empty),
            holding_piece: Tetromino::Empty,
            next_queue: NextQueue::new(rng),
            can_swap: true,
            frames_since_last_fall: 0,
            lock_delay_frames: 0,
            lock_delay_moves: 0,
            signed_frames_pressed: 0,
            combo: 0,
            has_lost: false,
            score: 0,
            b2b: 0,
            message: LineClearMessage::new(),
        }
    }

    /// A session as it starts, whatever its score.
    pub open spec fn fresh(p: Playfield) -> bool {
        &&& forall|j: int, i: int| 0 <= j < 40 && 0 <= i < 10 ==> at(p.grid, j, i) == Tetromino::Empty
        &&& Self::spawned(p.falling_piece, Tetromino::Empty)
        &&& p.holding_piece == Tetromino::Empty
        &&& is_bag(p.next_queue@)
        &&& p.next_queue@.len() == 7
        &&& p.can_swap
        &&& p.frames_since_last_fall == 0
        &&& p.lock_delay_frames == 0
        &&& p.lock_delay_moves == 0
        &&& p.signed_frames_pressed == 0
        &&& p.combo == 0
        &&& !p.has_lost
        &&& p.b2b == 0
        &&& p.message == LineClearMessage { message: MessageType::Empty, timer: 0 }
    }

    /// Starts the session over, keeping the score.
    pub fn restart(&mut self, rng: &mut StdRng)
        ensures
            final(self).wf(),
            Self::fresh(*final(self)),
            final(self).score == old(self).score,
    {
        let last_score = self.score;
        *self = Self::new(rng);
        self.score = last_score;
    }

    /// Whether the board is in a state that the tick and the ghost query accept.
    pub fn is_valid(&self) -> (r: bool)
        ensures
            r == self.wf(),
    {
        let p = self.falling_piece;
        let mut expected = FallingPiece::new(p.tetromino, p.position);
        let turns: usize = match p.orientation {
            Orientation::Up => 0,
            Orientation::Right => 1,
            Orientation::Down => 2,
            Orientation::Left => 3,
        };
        let mut n: usize = 0;
        while n < turns
            invariant
                n <= turns <= 3,
                turns == crate::falling_piece::quarter_turns(p.orientation),
                expected.tetromino == p.tetromino,
                expected.wf(),
                crate::falling_piece::quarter_turns(expected.orientation) == n,
            decreases turns - n,
        {
            expected.turn(RotationType::Clockwise);
            n = n + 1;
        }
        assert(expected.orientation == p.orientation);
        let m = p.tetromino_map;
        let e = expected.tetromino_map;
        assert(e@ == shape_of(p.tetromino, p.orientation));
        let mut c: usize = 0;
        while c < 4
            invariant
                c <= 4,
                e@ == shape_of(p.tetromino, p.orientation),
                m == p.tetromino_map,
                p == self.falling_piece,
                forall|j: int| 0 <= j < c ==> #[trigger] m@[j] == e@[j],
            decreases 4 - c,
        {
            if m[c].0 != e[c].0 || m[c].1 != e[c].1 {
                assert(m@[c as int] != e@[c as int]);
                assert(m@ != shape_of(p.tetromino, p.orientation));
                return false;
            }
            c = c + 1;
        }
        assert(m@ =~= e@);
        let mut k: usize = 0;
        while k < 4
            invariant
                k <= 4,
                m == p.tetromino_map,
                p == self.falling_piece,
                forall|j: int|
                    0 <= j < k ==> square_on_board(#[trigger] m@[j], p.position.0 as int, p.position.1 as int),
            decreases 4 - k,
        {
            let cx: i16 = m[k].0 as i16 + p.position.0 as i16;
            let cy: i16 = m[k].1 as i16 + p.position.1 as i16;
            if cx < 0 || cx >= 10 || cy < 0 || cy >= 40 {
                assert(!square_on_board(m@[k as int], p.position.0 as int, p.position.1 as int));
                return false;
            }
            k = k + 1;
        }
        self.next_queue.len() >= NextQueue::NEXT_QUEUE_SIZE && self.next_queue.has_no_empty()
    }

    /// Whether `shape` with its pivot at (`x`, `y`) lies on empty squares of the board.
    fn shape_fits(&self, shape: &TetrominoMap, x: i8, y: i8) -> (r: bool)
        requires
            shape_is_compact(shape@),
        ensures
            r == fits(self.grid, shape@, x as int, y as int),
    {
        let mut k: usize = 0;
        while k < 4
            invariant
                0 <= k <= 4,
                shape_is_compact(shape@),
                forall|m: int| 0 <= m < k ==> square_free(self.grid, #[trigger] shape@[m], x as int, y as int),
            decreases 4 - k,
        {
            let cx: i16 = shape[k].0 as i16 + x as i16;
            let cy: i16 = shape[k].1 as i16 + y as i16;
            if cx < 0 || cx >= 10 || cy < 0 || cy >= 40 {
                return false;
            }
            if self.grid[cy as usize][cx as usize] != Tetromino::Empty {
                return false;
            }
            k = k + 1;
        }
        true
    }
}


/// Column of the pivot after the `n`-th kick of a rotation of `p`.
pub open spec fn kick_x(p: FallingPiece, rt: RotationType, n: int) -> int {
    p.position.0 + offset_table_of(p.tetromino, p.orientation)[n].0 - offset_table_of(
        p.tetromino,
        next_orientation(p.orientation, rt),
    )[n].0
}

/// Row of the pivot after the `n`-th kick of a rotation of `p`.
pub open spec fn kick_y(p: FallingPiece, rt: RotationType, n: int) -> int {
    p.position.1 - offset_table_of(p.tetromino, p.orientation)[n].1 + offset_table_of(
        p.tetromino,
        next_orientation(p.orientation, rt),
    )[n].1
}

/// The `n`-th kick of a rotation of `p` puts the turned shape on empty squares.
pub open spec fn kick_fits(g: Grid, p: FallingPiece, rt: RotationType, n: int) -> bool {
    fits(g, turned_shape(p.tetromino_map@, rt), kick_x(p, rt, n), kick_y(p, rt, n))
}

/// Every kick offset is at most two squares in each direction.
pub proof fn lemma_offsets_small(t: Tetromino, o: Orientation)
    ensures
        offset_table_of(t, o).len() == 5,
        forall|n: int|
            0 <= n < 5 ==> -2 <= #[trigger] offset_table_of(t, o)[n].0 <= 2 && -2
                <= offset_table_of(t, o)[n].1 <= 2,
{
}

/// The piece stands `d` rows above where a drop stops it: it fits one, two, ...
/// `d` rows lower, and not `d + 1` rows lower.
pub open spec fn drop_stops_after(g: Grid, p: FallingPiece, d: int) -> bool {
    &&& d >= 0
    &&& forall|e: int|
        1 <= e <= d ==> #[trigger] fits(
            g,
            p.tetromino_map@,
            p.position.0 as int,
            p.position.1 + e,
        )
    &&& !fits(g, p.tetromino_map@, p.position.0 as int, p.position.1 + d + 1)
}

/// Column of the pivot of `p` after one shift.
pub open spec fn shifted_column(p: FallingPiece, shift: Shift) -> int {
    match shift {
        Shift::Left => p.position.0 - 1,
        Shift::Right => p.position.0 + 1,
    }
}

/// The active piece and its lock-delay counters are the same in `a` and `b`.
pub open spec fn piece_kept(a: Playfield, b: Playfield) -> bool {
    &&& b.falling_piece == a.falling_piece
    &&& b.lock_delay_frames == a.lock_delay_frames
    &&& b.lock_delay_moves == a.lock_delay_moves
}

/// Nothing but the auto-shift counter differs between `a` and `b`.
pub open spec fn nothing_moved(a: Playfield, b: Playfield) -> bool {
    &&& piece_kept(a, b)
    &&& Playfield::same_session(b, a)
    &&& b.frames_since_last_fall == a.frames_since_last_fall
}

/// One shift attempt takes `a` to `b`: where the piece fits one column over it
/// moves there, the lock-delay frames start over and one more move is counted;
/// else the piece stays.
pub open spec fn shift_step(a: Playfield, shift: Shift, b: Playfield) -> bool {
    let p = a.falling_piece;
    let x = shifted_column(p, shift);
    let ok = fits(a.grid, p.tetromino_map@, x, p.position.1 as int);
    &&& ok ==> b.falling_piece == (FallingPiece {
        tetromino: p.tetromino,
        orientation: p.orientation,
        position: (x as i8, p.position.1),
        tetromino_map: p.tetromino_map,
    }) && b.lock_delay_frames == 0 && b.lock_delay_moves == inc_u8(a.lock_delay_moves)
    &&& !ok ==> piece_kept(a, b)
    &&& Playfield::same_session(b, a)
    &&& b.frames_since_last_fall == a.frames_since_last_fall
}

/// One rotation attempt takes `a` to `b`: the turned piece goes to the first of
/// its five kicks that fits, the lock-delay frames start over and one more move
/// is counted; where no kick fits the piece stays as it was.
pub open spec fn rotate_step(a: Playfield, rt: RotationType, b: Playfield) -> bool {
    let p = a.falling_piece;
    let g = a.grid;
    let turned = exists|n: int| 0 <= n < 5 && kick_fits(g, p, rt, n);
    &&& turned ==> exists|n: int|
        0 <= n < 5 && kick_fits(g, p, rt, n) && (forall|m: int| 0 <= m < n ==> !kick_fits(g, p, rt, m))
            && b.falling_piece.position == (kick_x(p, rt, n) as i8, kick_y(p, rt, n) as i8)
    &&& turned ==> b.falling_piece.tetromino_map@ == turned_shape(p.tetromino_map@, rt)
        && b.falling_piece.orientation == next_orientation(p.orientation, rt)
        && b.falling_piece.tetromino == p.tetromino && b.lock_delay_frames == 0
        && b.lock_delay_moves == inc_u8(a.lock_delay_moves)
    &&& !turned ==> piece_kept(a, b)
    &&& Playfield::same_session(b, a)
    &&& b.frames_since_last_fall == a.frames_since_last_fall
}

impl Playfield {
    /// Moves the active piece one column when it fits there; else nothing changes.
    fn shift_falling_piece(&mut self, shift: Shift) -> (r: bool)
        requires
            old(self).piece_ok(),
        ensures
            ({
                let p = old(self).falling_piece;
                let x = match shift {
                    Shift::Left => p.position.0 - 1,
                    Shift::Right => p.position.0 + 1,
                };
                &&& r == fits(old(self).grid, p.tetromino_map@, x, p.position.1 as int)
                &&& r ==> final(self).falling_piece.position == (x as i8, p.position.1)
                    && final(self).lock_delay_frames == 0
                    && final(self).lock_delay_moves == inc_u8(old(self).lock_delay_moves)
                &&& !r ==> final(self).falling_piece == p
                    && final(self).lock_delay_frames == old(self).lock_delay_frames
                    && final(self).lock_delay_moves == old(self).lock_delay_moves
            }),
            final(self).falling_piece.tetromino == old(self).falling_piece.tetromino,
            final(self).falling_piece.orientation == old(self).falling_piece.orientation,
            final(self).falling_piece.tetromino_map == old(self).falling_piece.tetromino_map,
            final(self).piece_ok(),
            final(self).grid == old(self).grid,
            final(self).next_queue == old(self).next_queue,
            final(self).holding_piece == old(self).holding_piece,
            final(self).can_swap == old(self).can_swap,
            final(self).has_lost == old(self).has_lost,
            final(self).score == old(self).score,
            final(self).combo == old(self).combo,
            final(self).b2b == old(self).b2b,
            final(self).message == old(self).message,
            final(self).frames_since_last_fall == old(self).frames_since_last_fall,
            final(self).signed_frames_pressed == old(self).signed_frames_pressed,
            shift_step(*old(self), shift, *final(self)),
    {
        proof {
            lemma_shape_compact(self.falling_piece.tetromino, self.falling_piece.orientation);
            assert(self.falling_piece.tetromino_map@[0] == self.falling_piece.tetromino_map@[0]);
        }
        let mut moved = self.falling_piece;
        moved.shift(shift);
        if self.shape_fits(&moved.tetromino_map, moved.position.0, moved.position.1) {
            self.falling_piece = moved;
            self.lock_delay_frames = 0;
            if self.lock_delay_moves < u8::MAX {
                self.lock_delay_moves = self.lock_delay_moves + 1;
            }
            true
        } else {
            false
        }
    }

    /// Turns the active piece, placed by the first of its five kicks whose cells
    /// are all empty; where none is, nothing changes.
    fn check_rotation_collision(&mut self, rotation_type: RotationType) -> (r: bool)
        requires
            old(self).piece_ok(),
        ensures
            ({
                let p = old(self).falling_piece;
                let g = old(self).grid;
                let rt = rotation_type;
                &&& r == exists|n: int| 0 <= n < 5 && kick_fits(g, p, rt, n)
                &&& r ==> exists|n: int|
                    0 <= n < 5 && kick_fits(g, p, rt, n) && (forall|m: int|
                        0 <= m < n ==> !kick_fits(g, p, rt, m))
                        && final(self).falling_piece.position == (
                        kick_x(p, rt, n) as i8,
                        kick_y(p, rt, n) as i8,
                    )
                &&& r ==> final(self).falling_piece.tetromino_map@ == turned_shape(
                    p.tetromino_map@,
                    rt,
                ) && final(self).falling_piece.orientation == next_orientation(p.orientation, rt)
                    && final(self).falling_piece.tetromino == p.tetromino
                    && final(self).lock_delay_frames == 0
                    && final(self).lock_delay_moves == inc_u8(old(self).lock_delay_moves)
                &&& !r ==> final(self).falling_piece == p
                    && final(self).lock_delay_frames == old(self).lock_delay_frames
                    && final(self).lock_delay_moves == old(self).lock_delay_moves
            }),
            final(self).piece_ok(),
            final(self).grid == old(self).grid,
            final(self).next_queue == old(self).next_queue,
            final(self).holding_piece == old(self).holding_piece,
            final(self).can_swap == old(self).can_swap,
            final(self).has_lost == old(self).has_lost,
            final(self).score == old(self).score,
            final(self).combo == old(self).combo,
            final(self).b2b == old(self).b2b,
            final(self).message == old(self).message,
            final(self).frames_since_last_fall == old(self).frames_since_last_fall,
            final(self).signed_frames_pressed == old(self).signed_frames_pressed,
            rotate_step(*old(self), rotation_type, *final(self)),
    {
        let ghost p = self.falling_piece;
        let start_offset_values = self.falling_piece.get_offset_table();
        let mut turned = self.falling_piece;
        turned.turn(rotation_type);
        let end_offset_values = turned.get_offset_table();
        proof {
            lemma_shape_compact(p.tetromino, p.orientation);
            assert(p.tetromino_map@[0] == p.tetromino_map@[0]);
            lemma_offsets_small(p.tetromino, p.orientation);
            lemma_offsets_small(p.tetromino, turned.orientation);
            lemma_shape_compact(turned.tetromino, turned.orientation);
        }
        let mut n: usize = 0;
        while n < 5
            invariant
                0 <= n <= 5,
                turned.tetromino_map@ == turned_shape(p.tetromino_map@, rotation_type),
                turned.orientation == next_orientation(p.orientation, rotation_type),
                turned.tetromino == p.tetromino,
                turned.position == p.position,
                turned.wf(),
                shape_is_compact(turned.tetromino_map@),
                start_offset_values@ == offset_table_of(p.tetromino, p.orientation),
                end_offset_values@ == offset_table_of(p.tetromino, turned.orientation),
                -2 <= p.position.0 <= 12,
                -2 <= p.position.1 <= 42,
                *self == *old(self),
                p == old(self).falling_piece,
                forall|m: int| 0 <= m < n ==> !kick_fits(self.grid, p, rotation_type, m),
                forall|m: int|
                    0 <= m < 5 ==> -2 <= #[trigger] offset_table_of(p.tetromino, p.orientation)[m].0
                        <= 2 && -2 <= offset_table_of(p.tetromino, p.orientation)[m].1 <= 2,
                forall|m: int|
                    0 <= m < 5 ==> -2 <= #[trigger] offset_table_of(
                        p.tetromino,
                        turned.orientation,
                    )[m].0 <= 2 && -2 <= offset_table_of(p.tetromino, turned.orientation)[m].1
                        <= 2,
            decreases 5 - n,
        {
            let x: i8 = turned.position.0 + start_offset_values[n].0 - end_offset_values[n].0;
            let y: i8 = turned.position.1 - start_offset_values[n].1 + end_offset_values[n].1;
            if self.shape_fits(&turned.tetromino_map, x, y) {
                turned.position = (x, y);
                self.falling_piece = turned;
                self.lock_delay_frames = 0;
                if self.lock_delay_moves < u8::MAX {
                    self.lock_delay_moves = self.lock_delay_moves + 1;
                }
                assert(kick_fits(old(self).grid, p, rotation_type, n as int));
                assert(turned.tetromino_map@[0] == turned.tetromino_map@[0]);
                return true;
            }
            n = n + 1;
        }
        false
    }

    /// Whether the active piece fits one row lower.
    fn can_fall(&self) -> (r: bool)
        requires
            self.piece_ok(),
        ensures
            r == fits(
                self.grid,
                self.falling_piece.tetromino_map@,
                self.falling_piece.position.0 as int,
                self.falling_piece.position.1 + 1,
            ),
    {
        proof {
            lemma_shape_compact(self.falling_piece.tetromino, self.falling_piece.orientation);
            assert(self.falling_piece.tetromino_map@[0] == self.falling_piece.tetromino_map@[0]);
        }
        self.shape_fits(
            &self.falling_piece.tetromino_map,
            self.falling_piece.position.0,
            self.falling_piece.position.1 + 1,
        )
    }

    /// Where the active piece comes to rest if dropped straight down.
    pub fn get_ghost_piece(&self) -> (r: FallingPiece)
        requires
            self.piece_ok(),
        ensures
            r.tetromino == self.falling_piece.tetromino,
            r.orientation == self.falling_piece.orientation,
            r.tetromino_map == self.falling_piece.tetromino_map,
            r.position.0 == self.falling_piece.position.0,
            drop_stops_after(self.grid, self.falling_piece, r.position.1 - self.falling_piece.position.1),
            on_board(r.tetromino_map@, r.position.0 as int, r.position.1 as int),
    {
        let ghost p = self.falling_piece;
        proof {
            lemma_shape_compact(p.tetromino, p.orientation);
            assert(p.tetromino_map@[0] == p.tetromino_map@[0]);
        }
        let mut ghost_piece = self.falling_piece;
        loop
            invariant
                ghost_piece.tetromino == p.tetromino,
                ghost_piece.orientation == p.orientation,
                ghost_piece.tetromino_map == p.tetromino_map,
                ghost_piece.position.0 == p.position.0,
                p == self.falling_piece,
                self.piece_ok(),
                shape_is_compact(p.tetromino_map@),
                p.position.1 <= ghost_piece.position.1 <= 42,
                on_board(p.tetromino_map@, ghost_piece.position.0 as int, ghost_piece.position.1 as int),
                forall|e: int|
                    1 <= e <= ghost_piece.position.1 - p.position.1 ==> #[trigger] fits(
                        self.grid,
                        p.tetromino_map@,
                        p.position.0 as int,
                        p.position.1 + e,
                    ),
            ensures
                ghost_piece.tetromino == p.tetromino,
                ghost_piece.orientation == p.orientation,
                ghost_piece.tetromino_map == p.tetromino_map,
                ghost_piece.position.0 == p.position.0,
                on_board(p.tetromino_map@, ghost_piece.position.0 as int, ghost_piece.position.1 as int),
                drop_stops_after(self.grid, p, ghost_piece.position.1 - p.position.1),
            decreases 42 - ghost_piece.position.1,
        {
            let mut lower = ghost_piece;
            lower.fall();
            if !self.shape_fits(&lower.tetromino_map, lower.position.0, lower.position.1) {
                assert(lower.position.1 == p.position.1 + (ghost_piece.position.1 - p.position.1) + 1);
                assert(drop_stops_after(self.grid, p, ghost_piece.position.1 - p.position.1));
                break;
            }
            proof {
                assert(lower.tetromino_map@[0] == lower.tetromino_map@[0]);
                assert(fits(self.grid, p.tetromino_map@, p.position.0 as int, p.position.1 + (lower.position.1 - p.position.1)));
            }
            ghost_piece = lower;
        }
        ghost_piece
    }
}


/// Every square of row `j` is taken.
pub open spec fn row_full(g: Grid, j: int) -> bool {
    forall|i: int| 0 <= i < 10 ==> at(g, j, i) != Tetromino::Empty
}

/// The full rows among the top `n`, from the top down.
pub open spec fn full_rows(g: Grid, n: int) -> Seq<int>
    decreases n,
{
    if n <= 0 {
        seq![]
    } else if row_full(g, n - 1) {
        full_rows(g, n - 1).push(n - 1)
    } else {
        full_rows(g, n - 1)
    }
}

/// At most the first four entries.
pub open spec fn first_four(s: Seq<int>) -> Seq<int> {
    if s.len() > 4 {
        s.take(4)
    } else {
        s
    }
}

/// The rows that a line clear removes: the top four full rows, or all of them
/// where fewer are full.
pub open spec fn rows_to_clear(g: Grid) -> Seq<int> {
    first_four(full_rows(g, 40))
}

/// The grid as a sequence of rows.
pub open spec fn rows_of(g: Grid) -> Seq<Seq<Tetromino>> {
    g@.map_values(|r: Row| r@)
}

pub open spec fn empty_row() -> Seq<Tetromino> {
    Seq::new(10, |i: int| Tetromino::Empty)
}

/// Row `r` taken out: the rows above it move down one, and an empty row comes in
/// at the top.
pub open spec fn remove_row(rows: Seq<Seq<Tetromino>>, r: int) -> Seq<Seq<Tetromino>> {
    seq![empty_row()] + rows.take(r) + rows.skip(r + 1)
}

/// The given rows taken out, from the top one down; each removal leaves the rows
/// below it where they were, so the indices stay those of the grid before any removal.
pub open spec fn compact(rows: Seq<Seq<Tetromino>>, cleared: Seq<int>) -> Seq<Seq<Tetromino>>
    decreases cleared.len(),
{
    if cleared.len() == 0 {
        rows
    } else {
        remove_row(compact(rows, cleared.drop_last()), cleared.last())
    }
}

/// No square of the grid is taken.
pub open spec fn grid_empty(g: Grid) -> bool {
    forall|j: int, i: int| 0 <= j < 40 && 0 <= i < 10 ==> at(g, j, i) == Tetromino::Empty
}

/// Points for clearing `n` rows at once.
pub open spec fn base_points(n: int) -> int {
    if n == 1 {
        100
    } else if n == 2 {
        300
    } else if n == 3 {
        500
    } else {
        800
    }
}

/// Points raised by half once two or more four-row clears have come in a row.
pub open spec fn with_b2b(points: int, b2b: u16) -> int {
    if b2b >= 2 {
        points * 3 / 2
    } else {
        points
    }
}

pub open spec fn clear_message(n: int) -> MessageType {
    if n == 1 {
        MessageType::Single
    } else if n == 2 {
        MessageType::Double
    } else if n == 3 {
        MessageType::Triple
    } else {
        MessageType::Tetris
    }
}

/// Every entry of `full_rows(g, n)` is a full row below `n`, and they increase.
pub proof fn lemma_full_rows(g: Grid, n: int)
    requires
        0 <= n,
    ensures
        forall|k: int|
            0 <= k < full_rows(g, n).len() ==> 0 <= #[trigger] full_rows(g, n)[k] < n
                && row_full(g, full_rows(g, n)[k]),
        full_rows(g, n).len() <= n,
    decreases n,
{
    if n > 0 {
        lemma_full_rows(g, n - 1);
    }
}

/// How clearing lines takes the board and the scoring counters from `a` to `b`:
/// without a full row only the combo drops to zero; otherwise the rows to clear
/// are taken out, the combo grows by one, the back-to-back count grows on four
/// rows and drops to zero on fewer, and the score gains the combo bonus, the
/// row points and, for a board left empty, the all-clear bonus, which also
/// replaces the message.
pub open spec fn line_clear(a: Playfield, b: Playfield) -> bool {
    let rows = rows_to_clear(a.grid);
    let n = rows.len() as int;
    &&& n == 0 ==> {
        &&& b.grid == a.grid
        &&& b.combo == 0
        &&& b.b2b == a.b2b
        &&& b.score == a.score
        &&& b.message == a.message
    }
    &&& n > 0 ==> {
        &&& rows_of(b.grid) == compact(rows_of(a.grid), rows)
        &&& b.b2b == (if n == 4 {
            inc_u16(a.b2b)
        } else {
            0
        })
        &&& b.combo == inc_u8(a.combo)
        &&& b.score == add_points(
            a.score,
            b.combo * 50 + with_b2b(base_points(n), b.b2b) + (
            if grid_empty(b.grid) {
                with_b2b(3500, b.b2b)
            } else {
                0
            }),
        )
        &&& b.message == (LineClearMessage {
            message: if grid_empty(b.grid) {
                MessageType::AllClear
            } else {
                clear_message(n)
            },
            timer: LineClearMessage::DURATION,
        })
    }
}


impl Playfield {
    /// The pieces and counters that scoring leaves alone are equal in `a` and `b`.
    pub open spec fn same_pieces(a: Playfield, b: Playfield) -> bool {
        &&& a.falling_piece == b.falling_piece
        &&& a.holding_piece == b.holding_piece
        &&& a.next_queue == b.next_queue
        &&& a.can_swap == b.can_swap
        &&& a.has_lost == b.has_lost
        &&& a.frames_since_last_fall == b.frames_since_last_fall
        &&& a.lock_delay_frames == b.lock_delay_frames
        &&& a.lock_delay_moves == b.lock_delay_moves
        &&& a.signed_frames_pressed == b.signed_frames_pressed
    }

    fn row_is_full(&self, j: usize) -> (r: bool)
        requires
            j < 40,
        ensures
            r == row_full(self.grid, j as int),
    {
        let mut i: usize = 0;
        while i < 10
            invariant
                j < 40,
                i <= 10,
                forall|m: int| 0 <= m < i ==> at(self.grid, j as int, m) != Tetromino::Empty,
            decreases 10 - i,
        {
            if self.grid[j][i] == Tetromino::Empty {
                assert(at(self.grid, j as int, i as int) == Tetromino::Empty);
                return false;
            }
            i = i + 1;
        }
        true
    }

    /// Whether no square of the grid is taken.
    pub fn is_all_clear(&self) -> (r: bool)
        ensures
            r == grid_empty(self.grid),
    {
        let mut j: usize = 0;
        while j < 40
            invariant
                j <= 40,
                forall|a: int, b: int|
                    0 <= a < j && 0 <= b < 10 ==> at(self.grid, a, b) == Tetromino::Empty,
            decreases 40 - j,
        {
            let mut i: usize = 0;
            while i < 10
                invariant
                    j < 40,
                    i <= 10,
                    forall|a: int, b: int|
                        0 <= a < j && 0 <= b < 10 ==> at(self.grid, a, b) == Tetromino::Empty,
                    forall|b: int| 0 <= b < i ==> at(self.grid, j as int, b) == Tetromino::Empty,
                decreases 10 - i,
            {
                if self.grid[j][i] != Tetromino::Empty {
                    assert(at(self.grid, j as int, i as int) != Tetromino::Empty);
                    return false;
                }
                i = i + 1;
            }
            j = j + 1;
        }
        true
    }

    /// Takes row `r` out of the grid, moving the rows above it down by one.
    fn clear_row(&mut self, r: usize)
        requires
            r < 40,
        ensures
            rows_of(final(self).grid) == remove_row(rows_of(old(self).grid), r as int),
            Self::same_pieces(*final(self), *old(self)),
            final(self).score == old(self).score,
            final(self).combo == old(self).combo,
            final(self).b2b == old(self).b2b,
            final(self).message == old(self).message,
    {
        let mut row = r;
        while row > 0
            invariant
                row <= r < 40,
                Self::same_pieces(*self, *old(self)),
                self.score == old(self).score,
                self.combo == old(self).combo,
                self.b2b == old(self).b2b,
                self.message == old(self).message,
                forall|k: int| 0 <= k <= row ==> self.grid@[k] == old(self).grid@[k],
                forall|k: int| row < k <= r ==> self.grid@[k] == old(self).grid@[k - 1],
                forall|k: int| r < k < 40 ==> self.grid@[k] == old(self).grid@[k],
            decreases row,
        {
            self.grid[row] = self.grid[row - 1];
            row = row - 1;
        }
        self.grid[0] = [Tetromino::Empty; 10];
        assert(self.grid@[0]@ =~= empty_row());
        assert(rows_of(self.grid) =~= remove_row(rows_of(old(self).grid), r as int));
    }

    /// Removes the full rows that the last lock completed and scores them.
    pub fn clear_lines(&mut self)
        ensures
            line_clear(*old(self), *final(self)),
            Self::same_pieces(*final(self), *old(self)),
    {
        let ghost g0 = self.grid;
        proof {
            lemma_full_rows(g0, 40);
        }
        let mut found: Vec<usize> = Vec::new();
        let mut j: usize = 0;
        while j < 40
            invariant
                j <= 40,
                self.grid == g0,
                found@.len() == first_four(full_rows(g0, j as int)).len(),
                forall|k: int|
                    0 <= k < found@.len() ==> found@[k] as int == #[trigger] first_four(
                        full_rows(g0, j as int),
                    )[k],
            decreases 40 - j,
        {
            let ghost before = full_rows(g0, j as int);
            if self.row_is_full(j) {
                if found.len() < 4 {
                    found.push(j);
                }
                proof {
                    assert(full_rows(g0, j + 1) == before.push(j as int));
                    if before.len() >= 4 {
                        assert(first_four(before.push(j as int)) =~= first_four(before));
                    }
                }
            }
            j = j + 1;
        }
        let ghost cleared = rows_to_clear(g0);
        assert(cleared.len() == found@.len());
        let size = found.len();
        if size == 0 {
            self.combo = 0;
            return;
        }
        if size == 4 {
            if self.b2b < u16::MAX {
                self.b2b = self.b2b + 1;
            }
        } else {
            self.b2b = 0;
        }
        if self.combo < u8::MAX {
            self.combo = self.combo + 1;
        }
        let mut points: u64 = self.combo as u64 * 50;
        let boosted = self.b2b >= 2;
        if size == 1 {
            self.message = LineClearMessage::from(MessageType::Single);
            points = points + if boosted { 150 } else { 100 };
        } else if size == 2 {
            self.message = LineClearMessage::from(MessageType::Double);
            points = points + if boosted { 450 } else { 300 };
        } else if size == 3 {
            self.message = LineClearMessage::from(MessageType::Triple);
            points = points + if boosted { 750 } else { 500 };
        } else {
            self.message = LineClearMessage::from(MessageType::Tetris);
            points = points + if boosted { 1200 } else { 800 };
        }
        let ghost scored = *self;
        assert forall|k: int| 0 <= k < cleared.len() implies 0 <= #[trigger] cleared[k] < 40 by {
            assert(cleared[k] == full_rows(g0, 40)[k]);
        }
        let mut idx: usize = 0;
        while idx < size
            invariant
                idx <= size == found@.len() <= 4,
                cleared.len() == size,
                forall|k: int| 0 <= k < size ==> found@[k] as int == #[trigger] cleared[k],
                forall|k: int| 0 <= k < cleared.len() ==> 0 <= #[trigger] cleared[k] < 40,
                rows_of(self.grid) == compact(rows_of(g0), cleared.take(idx as int)),
                Self::same_pieces(*self, scored),
                self.score == scored.score,
                self.combo == scored.combo,
                self.b2b == scored.b2b,
                self.message == scored.message,
            decreases size - idx,
        {
            let r = found[idx];
            assert(r as int == cleared[idx as int]);
            assert(cleared.take(idx + 1).drop_last() =~= cleared.take(idx as int));
            self.clear_row(r);
            idx = idx + 1;
        }
        assert(cleared.take(size as int) =~= cleared);
        if self.is_all_clear() {
            self.message = LineClearMessage::from(MessageType::AllClear);
            points = points + if boosted { 5250 } else { 3500 };
        }
        if self.score <= u64::MAX - points {
            self.score = self.score + points;
        } else {
            self.score = u64::MAX;
        }
    }
}


/// Locking piece `p` takes `a` to `b`: its cells are written into the grid, the
/// next piece of the queue spawns, swapping is allowed again, the fall and
/// lock-delay counters start over, the score becomes `score`, and the game is lost
/// exactly when the new piece's squares are not all empty.
pub open spec fn locks_into(a: Playfield, p: FallingPiece, score: u64, b: Playfield) -> bool {
    &&& forall|j: int, i: int|
        0 <= j < 40 && 0 <= i < 10 ==> #[trigger] at(b.grid, j, i) == if covers(p, 4, j, i) {
            p.tetromino
        } else {
            at(a.grid, j, i)
        }
    &&& Playfield::spawned(b.falling_piece, a.next_queue@.last())
    &&& b.next_queue@ == a.next_queue@.drop_last()
    &&& b.can_swap
    &&& b.has_lost == !fits(
        b.grid,
        b.falling_piece.tetromino_map@,
        Playfield::SPAWN_COLUMN as int,
        Playfield::SPAWN_ROW as int,
    )
    &&& b.frames_since_last_fall == 0
    &&& b.lock_delay_frames == 0
    &&& b.lock_delay_moves == 0
    &&& b.holding_piece == a.holding_piece
    &&& b.signed_frames_pressed == a.signed_frames_pressed
    &&& b.score == score
    &&& b.combo == a.combo
    &&& b.b2b == a.b2b
    &&& b.message == a.message
}

/// Locking piece `p` with the score set to `score`, then clearing lines, takes `a`
/// to `b`.
pub open spec fn locks_and_clears(a: Playfield, p: FallingPiece, score: u64, b: Playfield) -> bool {
    exists|mid: Playfield|
        locks_into(a, p, score, mid) && line_clear(mid, b) && #[trigger] Playfield::same_pieces(b, mid)
}

impl Playfield {
    /// Writes the active piece into the grid, spawns the next piece from the queue
    /// and re-enables swapping; the game is lost when the new piece's squares are
    /// not all empty.
    fn solidify_falling_piece(&mut self)
        requires
            old(self).piece_ok(),
            old(self).next_queue@.len() >= 1,
        ensures
            locks_into(*old(self), old(self).falling_piece, old(self).score, *final(self)),
            final(self).piece_ok(),
    {
        let p = self.falling_piece;
        let ghost g0 = self.grid;
        proof {
            lemma_shape_compact(p.tetromino, p.orientation);
        }
        let mut grid = self.grid;
        let mut k: usize = 0;
        while k < 4
            invariant
                k <= 4,
                p == old(self).falling_piece,
                g0 == old(self).grid,
                on_board(p.tetromino_map@, p.position.0 as int, p.position.1 as int),
                shape_is_compact(p.tetromino_map@),
                forall|j: int, i: int|
                    0 <= j < 40 && 0 <= i < 10 ==> #[trigger] at(grid, j, i) == if covers(p, k as int, j, i) {
                        p.tetromino
                    } else {
                        at(g0, j, i)
                    },
            decreases 4 - k,
        {
            let c = p.tetromino_map[k];
            assert(square_on_board(p.tetromino_map@[k as int], p.position.0 as int, p.position.1 as int));
            let cx: i8 = c.0 + p.position.0;
            let cy: i8 = c.1 + p.position.1;
            let ghost before = grid;
            grid[cy as usize][cx as usize] = p.tetromino;
            assert forall|j: int, i: int| 0 <= j < 40 && 0 <= i < 10 implies #[trigger] at(grid, j, i)
                == if covers(p, k + 1, j, i) {
                p.tetromino
            } else {
                at(g0, j, i)
            } by {
                if j == cy && i == cx {
                    assert(lands_on(p.tetromino_map@[k as int], p.position, j, i));
                } else {
                    assert(at(grid, j, i) == at(before, j, i));
                    if covers(p, k + 1, j, i) {
                        let w = choose|w: int|
                            0 <= w < k + 1 && lands_on(#[trigger] p.tetromino_map@[w], p.position, j, i);
                        assert(w != k);
                    }
                }
            }
            k = k + 1;
        }
        self.grid = grid;
        let new_tetromino = self.next_queue.get_next_tetromino();
        self.falling_piece = Self::spawn_piece(new_tetromino);
        self.can_swap = true;
        proof {
            lemma_shape_compact(new_tetromino, Orientation::Up);
        }
        let fits_at_spawn = self.shape_fits(
            &self.falling_piece.tetromino_map,
            Self::SPAWN_COLUMN,
            Self::SPAWN_ROW,
        );
        self.has_lost = !fits_at_spawn;
        self.frames_since_last_fall = 0;
        self.lock_delay_frames = 0;
        self.lock_delay_moves = 0;
    }

    /// Exchanges the active tetromino with the held one; the held one enters at the
    /// spawn position.
    fn swap_tetromino(&mut self)
        requires
            old(self).piece_ok(),
        ensures
            Self::spawned(final(self).falling_piece, old(self).holding_piece),
            final(self).piece_ok(),
            final(self).holding_piece == old(self).falling_piece.tetromino,
            !final(self).can_swap,
            final(self).frames_since_last_fall == 0,
            final(self).lock_delay_frames == 0,
            final(self).lock_delay_moves == 0,
            final(self).grid == old(self).grid,
            final(self).next_queue == old(self).next_queue,
            final(self).has_lost == old(self).has_lost,
            final(self).signed_frames_pressed == old(self).signed_frames_pressed,
            final(self).score == old(self).score,
            final(self).combo == old(self).combo,
            final(self).b2b == old(self).b2b,
            final(self).message == old(self).message,
    {
        let current_tetromino = self.falling_piece.tetromino;
        self.falling_piece = Self::spawn_piece(self.holding_piece);
        self.holding_piece = current_tetromino;
        self.can_swap = false;
        self.frames_since_last_fall = 0;
        self.lock_delay_frames = 0;
        self.lock_delay_moves = 0;
    }

    /// Counts one more tick on the fall and lock-delay timers and one less on the
    /// message, which stops at zero.
    fn update_timers(&mut self)
        ensures
            final(self).frames_since_last_fall == inc_u8(old(self).frames_since_last_fall),
            final(self).lock_delay_frames == inc_u8(old(self).lock_delay_frames),
            final(self).message.message == old(self).message.message,
            final(self).message.timer == if old(self).message.timer > 0 {
                (old(self).message.timer - 1) as u8
            } else {
                0
            },
            final(self).grid == old(self).grid,
            final(self).falling_piece == old(self).falling_piece,
            final(self).holding_piece == old(self).holding_piece,
            final(self).next_queue == old(self).next_queue,
            final(self).can_swap == old(self).can_swap,
            final(self).has_lost == old(self).has_lost,
            final(self).lock_delay_moves == old(self).lock_delay_moves,
            final(self).signed_frames_pressed == old(self).signed_frames_pressed,
            final(self).score == old(self).score,
            final(self).combo == old(self).combo,
            final(self).b2b == old(self).b2b,
    {
        if self.frames_since_last_fall < u8::MAX {
            self.frames_since_last_fall = self.frames_since_last_fall + 1;
        }
        if self.lock_delay_frames < u8::MAX {
            self.lock_delay_frames = self.lock_delay_frames + 1;
        }
        if self.message.timer > 0 {
            self.message.timer = self.message.timer - 1;
        }
    }
}


/// The piece moved `d` rows down.
pub open spec fn dropped(p: FallingPiece, d: int) -> FallingPiece {
    FallingPiece {
        tetromino: p.tetromino,
        orientation: p.orientation,
        position: (p.position.0, (p.position.1 + d) as i8),
        tetromino_map: p.tetromino_map,
    }
}

/// How a tick that returned `locked` sets the swap flag: a lock re-enables
/// swapping, a swap disables it, a restart starts from an enabled flag, and a lost
/// session keeps it.
pub open spec fn swap_step(a: Playfield, input: InputSnapshot, locked: bool, b: Playfield) -> bool {
    if !input.restart && a.has_lost {
        b.can_swap == a.can_swap
    } else {
        let swappable = input.restart || a.can_swap;
        b.can_swap == (locked || (swappable && !input.swap))
    }
}

/// An input that asks for nothing but, perhaps, a held soft drop.
pub open spec fn quiet(input: InputSnapshot) -> bool {
    &&& !input.restart
    &&& !input.swap
    &&& !input.left_pressed
    &&& !input.right_pressed
    &&& !input.left_held
    &&& !input.right_held
    &&& !input.hard_drop
    &&& !input.rotate_clockwise
    &&& !input.rotate_counter_clockwise
    &&& !input.rotate_one_eighty
}

/// What a tick under a quiet input does to a piece in play that has room to fall:
/// the fall timer counts the tick, and once it reaches the interval (one tick with
/// soft drop held, twenty without) the piece moves down one row and the timer
/// starts over.
pub open spec fn quiet_fall(a: Playfield, soft_drop: bool, b: Playfield) -> bool {
    let frames = inc_u8(a.frames_since_last_fall);
    let due = if soft_drop {
        frames >= 1
    } else {
        frames >= 20
    };
    &&& b.grid == a.grid
    &&& b.score == a.score
    &&& !b.has_lost
    &&& due ==> b.falling_piece == dropped(a.falling_piece, 1) && b.frames_since_last_fall == 0
    &&& !due ==> b.falling_piece == a.falling_piece && b.frames_since_last_fall == frames
}

/// The active piece is in play and has room to fall one row.
pub open spec fn can_descend(a: Playfield) -> bool {
    &&& !a.has_lost
    &&& a.falling_piece.tetromino != Tetromino::Empty
    &&& fits(
        a.grid,
        a.falling_piece.tetromino_map@,
        a.falling_piece.position.0 as int,
        a.falling_piece.position.1 + 1,
    )
}

/// A drop stops at one distance only; in particular a piece with no room below
/// it drops zero rows.
pub proof fn lemma_drop_distance_unique(g: Grid, p: FallingPiece, d1: int, d2: int)
    requires
        drop_stops_after(g, p, d1),
        drop_stops_after(g, p, d2),
    ensures
        d1 == d2,
{
    if d1 < d2 {
        assert(fits(g, p.tetromino_map@, p.position.0 as int, p.position.1 + (d1 + 1)));
    } else if d2 < d1 {
        assert(fits(g, p.tetromino_map@, p.position.0 as int, p.position.1 + (d2 + 1)));
    }
}

/// `q1` is queue `q0` after a refill: unchanged while it holds a bag's worth,
/// else with a bag put in front of it.
pub open spec fn refills(q0: Seq<Tetromino>, q1: Seq<Tetromino>) -> bool {
    &&& q0.len() >= 7 ==> q1 == q0
    &&& q0.len() < 7 ==> {
        &&& q1.len() == q0.len() + 7
        &&& is_bag(q1.subrange(0, 7))
        &&& q1.subrange(7, q1.len() as int) == q0
    }
}

/// The start of a tick takes `a` to `b`: a swap asked for while allowed
/// exchanges the active and held tetrominoes and brings the held one in at the
/// spawn position; the fall and lock-delay timers count the tick; the queue is
/// refilled; and where no piece is in play the next one of the queue spawns.
pub open spec fn begin_step(a: Playfield, input: InputSnapshot, b: Playfield) -> bool {
    let swapped = input.swap && a.can_swap;
    let entering = if swapped {
        a.holding_piece
    } else {
        a.falling_piece.tetromino
    };
    let spawn = entering == Tetromino::Empty;
    &&& b.holding_piece == (if swapped {
        a.falling_piece.tetromino
    } else {
        a.holding_piece
    })
    &&& b.can_swap == (a.can_swap && !input.swap)
    &&& spawn ==> Playfield::spawned(b.falling_piece, a.next_queue@.last())
        && b.frames_since_last_fall == 0 && b.lock_delay_frames == 0 && b.lock_delay_moves == 0
    &&& !spawn ==> {
        &&& swapped ==> Playfield::spawned(b.falling_piece, a.holding_piece)
        &&& !swapped ==> b.falling_piece == a.falling_piece
        &&& b.frames_since_last_fall == inc_u8(
            if swapped {
                0
            } else {
                a.frames_since_last_fall
            },
        )
        &&& b.lock_delay_frames == inc_u8(
            if swapped {
                0
            } else {
                a.lock_delay_frames
            },
        )
        &&& b.lock_delay_moves == (if swapped {
            0
        } else {
            a.lock_delay_moves
        })
    }
    &&& exists|q: Seq<Tetromino>|
        #[trigger] refills(a.next_queue@, q) && b.next_queue@ == (if spawn {
            q.drop_last()
        } else {
            q
        })
    &&& b.grid == a.grid
    &&& b.score == a.score
    &&& b.combo == a.combo
    &&& b.b2b == a.b2b
    &&& b.has_lost == a.has_lost
    &&& b.signed_frames_pressed == a.signed_frames_pressed
    &&& b.message.message == a.message.message
    &&& b.message.timer == (if a.message.timer > 0 {
        (a.message.timer - 1) as u8
    } else {
        0
    })
}

/// The auto-shift counter after a tick: it counts ticks held to the left upwards
/// and to the right downwards, starting over when the direction changes, and is
/// zero when neither is held.
pub open spec fn held_counter(c: i32, input: InputSnapshot) -> i32 {
    if input.left_held {
        let held = if c < 0 {
            0
        } else {
            c
        };
        if held < i32::MAX {
            (held + 1) as i32
        } else {
            held
        }
    } else if input.right_held {
        let held = if c > 0 {
            0
        } else {
            c
        };
        if held > i32::MIN {
            (held - 1) as i32
        } else {
            held
        }
    } else {
        0
    }
}

/// A tap takes `a` to `b`: it shifts the piece one column, where it fits.
pub open spec fn tap_step(a: Playfield, input: InputSnapshot, b: Playfield) -> bool {
    &&& if input.left_pressed {
        shift_step(a, Shift::Left, b)
    } else if input.right_pressed {
        shift_step(a, Shift::Right, b)
    } else {
        nothing_moved(a, b)
    }
    &&& b.signed_frames_pressed == a.signed_frames_pressed
}

/// Holding a direction takes `a` to `b`: the counter counts the tick, and once it
/// is past the auto-shift delay of seven ticks the piece shifts one column.
pub open spec fn auto_shift_step(a: Playfield, input: InputSnapshot, b: Playfield) -> bool {
    &&& b.signed_frames_pressed == held_counter(a.signed_frames_pressed, input)
    &&& if input.left_held && b.signed_frames_pressed > 7 {
        shift_step(a, Shift::Left, b)
    } else if !input.left_held && input.right_held && b.signed_frames_pressed < -7 {
        shift_step(a, Shift::Right, b)
    } else {
        nothing_moved(a, b)
    }
}

/// A rotation request takes `a` to `b`: clockwise before counter-clockwise before
/// half turn, with kicks.
pub open spec fn rotation_request_step(a: Playfield, input: InputSnapshot, b: Playfield) -> bool {
    &&& b.signed_frames_pressed == a.signed_frames_pressed
    &&& if input.rotate_clockwise {
        rotate_step(a, RotationType::Clockwise, b)
    } else if input.rotate_counter_clockwise {
        rotate_step(a, RotationType::CounterClockwise, b)
    } else if input.rotate_one_eighty {
        rotate_step(a, RotationType::OneEighty, b)
    } else {
        nothing_moved(a, b)
    }
}

/// The moves of a tick through `b1` (after a tap) and `b2` (after auto-shift) to
/// `c` (after rotation).
pub open spec fn moves_via(
    a: Playfield,
    input: InputSnapshot,
    b1: Playfield,
    b2: Playfield,
    c: Playfield,
) -> bool {
    &&& tap_step(a, input, b1)
    &&& auto_shift_step(b1, input, b2)
    &&& rotation_request_step(b2, input, c)
}

/// The moves of a tick take `a` to `c`.
pub open spec fn moves_step(a: Playfield, input: InputSnapshot, c: Playfield) -> bool {
    exists|b1: Playfield, b2: Playfield| #[trigger] moves_via(a, input, b1, b2, c)
}

/// The end of a tick takes `a` to `b` and reports `locked`: a hard drop moves
/// the piece down as far as it goes, scores two points a row, locks it and clears
/// lines; otherwise a piece with room to fall moves down one row when the fall
/// interval has passed (renewing its lock delay), and a grounded piece locks, and
/// lines are cleared, once it has spent more than its lock-delay frames or moves.
pub open spec fn end_step(a: Playfield, input: InputSnapshot, locked: bool, b: Playfield) -> bool {
    let p = a.falling_piece;
    let can = fits(a.grid, p.tetromino_map@, p.position.0 as int, p.position.1 + 1);
    let due = if input.soft_drop_held {
        a.frames_since_last_fall >= 1
    } else {
        a.frames_since_last_fall >= 20
    };
    if input.hard_drop {
        locked && exists|d: int|
            drop_stops_after(a.grid, p, d) && #[trigger] locks_and_clears(
                a,
                dropped(p, d),
                add_points(a.score, 2 * d),
                b,
            )
    } else if can {
        &&& !locked
        &&& Playfield::same_session(b, a)
        &&& b.signed_frames_pressed == a.signed_frames_pressed
        &&& due ==> b.falling_piece == dropped(p, 1) && b.frames_since_last_fall == 0
            && b.lock_delay_frames == 0 && b.lock_delay_moves == 0
        &&& !due ==> piece_kept(a, b) && b.frames_since_last_fall == a.frames_since_last_fall
    } else {
        &&& locked == (a.lock_delay_frames > 30 || a.lock_delay_moves > 15)
        &&& locked ==> locks_and_clears(a, p, a.score, b)
        &&& !locked ==> {
            &&& piece_kept(a, b)
            &&& Playfield::same_session(b, a)
            &&& b.signed_frames_pressed == a.signed_frames_pressed
            &&& b.frames_since_last_fall == (if due {
                0
            } else {
                a.frames_since_last_fall
            })
        }
    }
}

/// One tick through the states `s0` (after a restart, if asked for), `s1` (after
/// the start of the tick) and `s2` (after the moves).
pub open spec fn tick_via(
    a: Playfield,
    input: InputSnapshot,
    s0: Playfield,
    s1: Playfield,
    s2: Playfield,
    locked: bool,
    b: Playfield,
) -> bool {
    &&& if input.restart {
        Playfield::fresh(s0) && s0.score == a.score
    } else {
        s0 == a
    }
    &&& begin_step(s0, input, s1)
    &&& moves_step(s1, input, s2)
    &&& end_step(s2, input, locked, b)
}

/// One tick of a session in play (or restarted by it) takes `a` to `b` and
/// reports whether a piece locked.
pub open spec fn tick(a: Playfield, input: InputSnapshot, locked: bool, b: Playfield) -> bool {
    exists|s0: Playfield, s1: Playfield, s2: Playfield| #[trigger] tick_via(a, input, s0, s1, s2, locked, b)
}

impl Playfield {
    /// Drops the active piece as far as it goes, two points for each row it
    /// descends, and locks it where it stops.
    fn hard_drop(&mut self)
        requires
            old(self).piece_ok(),
            old(self).next_queue@.len() >= 1,
        ensures
            exists|d: int|
                drop_stops_after(old(self).grid, old(self).falling_piece, d) && locks_into(
                    *old(self),
                    dropped(old(self).falling_piece, d),
                    add_points(old(self).score, 2 * d),
                    *final(self),
                ),
            !fits(
                old(self).grid,
                old(self).falling_piece.tetromino_map@,
                old(self).falling_piece.position.0 as int,
                old(self).falling_piece.position.1 + 1,
            ) ==> final(self).score == old(self).score,
            final(self).piece_ok(),
    {
        let ghost p = self.falling_piece;
        let landing = self.get_ghost_piece();
        let distance: i8 = landing.position.1 - self.falling_piece.position.1;
        let points: u64 = 2 * distance as u64;
        if self.score <= u64::MAX - points {
            self.score = self.score + points;
        } else {
            self.score = u64::MAX;
        }
        self.falling_piece = landing;
        assert(landing == dropped(p, distance as int));
        proof {
            if !fits(self.grid, p.tetromino_map@, p.position.0 as int, p.position.1 + 1) {
                lemma_drop_distance_unique(self.grid, p, distance as int, 0);
            }
        }
        self.solidify_falling_piece();
    }

    /// The session state that moving the active piece leaves alone is equal in `a`
    /// and `b`.
    pub open spec fn same_session(a: Playfield, b: Playfield) -> bool {
        &&& a.grid == b.grid
        &&& a.holding_piece == b.holding_piece
        &&& a.next_queue == b.next_queue
        &&& a.can_swap == b.can_swap
        &&& a.has_lost == b.has_lost
        &&& a.score == b.score
        &&& a.combo == b.combo
        &&& a.b2b == b.b2b
        &&& a.message == b.message
    }

    /// The start of a tick: swap when asked and allowed, count the timers, refill
    /// the queue, and spawn a piece where there is none.
    fn begin_tick(&mut self, input: &InputSnapshot, rng: &mut StdRng)
        requires
            old(self).wf(),
        ensures
            begin_step(*old(self), *input, *final(self)),
            final(self).piece_ok(),
            final(self).next_queue@.len() >= 6,
            no_empty(final(self).next_queue@),
    {
        let ghost a = *self;
        if input.swap && self.can_swap {
            self.swap_tetromino();
        }
        self.update_timers();
        let ghost before_refill = self.next_queue@;
        self.next_queue.push_new_bag_if_needed(rng);
        let ghost q = self.next_queue@;
        proof {
            assert(refills(a.next_queue@, q));
            if before_refill.len() < 7 {
                lemma_bag_has_no_empty(q.subrange(0, 7));
                assert forall|k: int| 0 <= k < q.len() implies #[trigger] q[k] != Tetromino::Empty by {
                    if k < 7 {
                        assert(q[k] == q.subrange(0, 7)[k]);
                    } else {
                        assert(q[k] == q.subrange(7, q.len() as int)[k - 7]);
                    }
                }
                assert(q.last() == q.subrange(7, q.len() as int).last());
            }
            assert(q.last() == a.next_queue@.last());
        }
        if self.falling_piece.tetromino == Tetromino::Empty {
            let new_tetromino = self.next_queue.get_next_tetromino();
            self.falling_piece = Self::spawn_piece(new_tetromino);
            self.frames_since_last_fall = 0;
            self.lock_delay_frames = 0;
            self.lock_delay_moves = 0;
        }
        assert(no_empty(self.next_queue@));
    }

    fn tap(&mut self, input: &InputSnapshot)
        requires
            old(self).piece_ok(),
        ensures
            final(self).piece_ok(),
            tap_step(*old(self), *input, *final(self)),
    {
        if input.left_pressed {
            self.shift_falling_piece(Shift::Left);
        } else if input.right_pressed {
            self.shift_falling_piece(Shift::Right);
        }
    }

    fn auto_shift(&mut self, input: &InputSnapshot)
        requires
            old(self).piece_ok(),
        ensures
            final(self).piece_ok(),
            auto_shift_step(*old(self), *input, *final(self)),
    {
        let ghost a = *self;
        if input.left_held {
            if self.signed_frames_pressed < 0 {
                self.signed_frames_pressed = 0;
            }
            if self.signed_frames_pressed < i32::MAX {
                self.signed_frames_pressed = self.signed_frames_pressed + 1;
            }
            if self.signed_frames_pressed > Self::DAS {
                self.shift_falling_piece(Shift::Left);
            }
        } else if input.right_held {
            if self.signed_frames_pressed > 0 {
                self.signed_frames_pressed = 0;
            }
            if self.signed_frames_pressed > i32::MIN {
                self.signed_frames_pressed = self.signed_frames_pressed - 1;
            }
            if self.signed_frames_pressed < -Self::DAS {
                self.shift_falling_piece(Shift::Right);
            }
        } else {
            self.signed_frames_pressed = 0;
        }
    }

    fn rotation_request(&mut self, input: &InputSnapshot)
        requires
            old(self).piece_ok(),
        ensures
            final(self).piece_ok(),
            rotation_request_step(*old(self), *input, *final(self)),
    {
        if input.rotate_clockwise {
            self.check_rotation_collision(RotationType::Clockwise);
        } else if input.rotate_counter_clockwise {
            self.check_rotation_collision(RotationType::CounterClockwise);
        } else if input.rotate_one_eighty {
            self.check_rotation_collision(RotationType::OneEighty);
        }
    }

    /// Taps, auto-shift after the delay while a direction is held (one column a
    /// tick), and rotation.
    fn move_piece(&mut self, input: &InputSnapshot)
        requires
            old(self).piece_ok(),
        ensures
            final(self).piece_ok(),
            moves_step(*old(self), *input, *final(self)),
            Self::same_session(*final(self), *old(self)),
            final(self).frames_since_last_fall == old(self).frames_since_last_fall,
            !input.left_pressed && !input.right_pressed && !input.left_held && !input.right_held
                && !input.rotate_clockwise && !input.rotate_counter_clockwise
                && !input.rotate_one_eighty ==> final(self).falling_piece == old(self).falling_piece
                && final(self).lock_delay_frames == old(self).lock_delay_frames
                && final(self).lock_delay_moves == old(self).lock_delay_moves,
    {
        let ghost s0 = *self;
        self.tap(input);
        let ghost s1 = *self;
        self.auto_shift(input);
        let ghost s2 = *self;
        self.rotation_request(input);
        assert(moves_via(s0, *input, s1, s2, *self));
    }

    /// The end of a tick: hard drop, or one row of gravity or soft drop when it is
    /// due, or a lock once a grounded piece has used up its lock delay. A due fall
    /// that succeeds renews the lock delay; a grounded piece does not.
    fn end_tick(&mut self, input: &InputSnapshot) -> (r: bool)
        requires
            old(self).piece_ok(),
            old(self).next_queue@.len() >= 1,
        ensures
            end_step(*old(self), *input, r, *final(self)),
            final(self).piece_ok(),
            final(self).next_queue@ == old(self).next_queue@ || final(self).next_queue@ == old(
                self,
            ).next_queue@.drop_last(),
            final(self).score >= old(self).score,
            r ==> final(self).can_swap,
            !r ==> final(self).can_swap == old(self).can_swap,
            !r ==> final(self).has_lost == old(self).has_lost,
            !r ==> final(self).grid == old(self).grid && final(self).score == old(self).score
                && final(self).combo == old(self).combo && final(self).b2b == old(self).b2b,
    {
        let ghost a = *self;
        if input.hard_drop {
            self.hard_drop();
            let ghost d = choose|d: int|
                drop_stops_after(a.grid, a.falling_piece, d) && locks_into(
                    a,
                    dropped(a.falling_piece, d),
                    add_points(a.score, 2 * d),
                    *self,
                );
            let ghost mid = *self;
            self.clear_lines();
            assert(Self::same_pieces(*self, mid));
            assert(locks_and_clears(a, dropped(a.falling_piece, d), add_points(a.score, 2 * d), *self));
            return true;
        }
        let mut is_fall_step = false;
        if input.soft_drop_held {
            if self.frames_since_last_fall >= Self::SOFT_DROP_FRAMES {
                self.frames_since_last_fall = 0;
                is_fall_step = true;
            }
        } else if self.frames_since_last_fall >= Self::GRAVITY_FRAMES {
            self.frames_since_last_fall = 0;
            is_fall_step = true;
        }
        if self.can_fall() {
            if is_fall_step {
                proof {
                    lemma_shape_compact(self.falling_piece.tetromino, self.falling_piece.orientation);
                    lemma_on_board_bounds(
                        self.falling_piece.tetromino_map@,
                        self.falling_piece.position.0 as int,
                        self.falling_piece.position.1 as int,
                    );
                }
                self.falling_piece.fall();
                self.lock_delay_frames = 0;
                self.lock_delay_moves = 0;
                proof {
                    assert(self.falling_piece.tetromino_map@[0] == self.falling_piece.tetromino_map@[0]);
                }
            }
            return false;
        }
        if self.lock_delay_frames > Self::MAX_LOCK_DELAY_FRAMES || self.lock_delay_moves
            > Self::MAX_LOCK_DELAY_MOVES {
            self.solidify_falling_piece();
            let ghost mid = *self;
            self.clear_lines();
            assert(Self::same_pieces(*self, mid));
            assert(locks_and_clears(a, a.falling_piece, a.score, *self));
            return true;
        }
        false
    }

    /// Advances the session by one tick under the given input and returns whether a
    /// piece locked during it.
    pub fn update(&mut self, input: &InputSnapshot, rng: &mut StdRng) -> (r: bool)
        requires
            old(self).wf(),
        ensures
            final(self).wf(),
            final(self).score >= old(self).score,
            !input.restart && old(self).has_lost ==> !r && *final(self) == *old(self),
            !input.restart && old(self).has_lost ==> *final(rng) == *old(rng),
            input.restart || !old(self).has_lost ==> tick(*old(self), *input, r, *final(self)),
            swap_step(*old(self), *input, r, *final(self)),
            input.restart || !old(self).has_lost ==> {
                &&& input.hard_drop ==> r
                &&& r ==> Self::spawned(final(self).falling_piece, final(self).falling_piece.tetromino)
            },
            quiet(*input) && can_descend(*old(self)) ==> !r && quiet_fall(
                *old(self),
                input.soft_drop_held,
                *final(self),
            ),
            !input.restart && !r ==> final(self).grid == old(self).grid && final(self).score
                == old(self).score && final(self).combo == old(self).combo && final(self).b2b
                == old(self).b2b,
    {
        let ghost a = *self;
        if input.restart {
            self.restart(rng);
        }
        if self.has_lost {
            return false;
        }
        let ghost s0 = *self;
        self.begin_tick(input, rng);
        let ghost s1 = *self;
        self.move_piece(input);
        let ghost s2 = *self;
        let r = self.end_tick(input);
        proof {
            assert(tick_via(a, *input, s0, s1, s2, r, *self));
            assert forall|k: int| 0 <= k < self.next_queue@.len() implies #[trigger] self.next_queue@[k]
                != Tetromino::Empty by {
                assert(s2.next_queue@[k] == self.next_queue@[k]);
            }
        }
        r
    }
}


/// With soft drop held, every tick in which the piece has room to fall moves it
/// down exactly one row.
pub proof fn lemma_soft_drop_every_tick(a: Playfield, b: Playfield)
    requires
        quiet_fall(a, true, b),
    ensures
        b.falling_piece == dropped(a.falling_piece, 1),
{
}

proof fn lemma_gravity_prefix(s: Seq<Playfield>, k: int)
    requires
        s.len() == 21,
        s[0].frames_since_last_fall == 0,
        forall|m: int| 0 <= m < 20 ==> quiet_fall(#[trigger] s[m], false, s[m + 1]),
        0 <= k < 20,
    ensures
        s[k].frames_since_last_fall == k,
        s[k].falling_piece == s[0].falling_piece,
    decreases k,
{
    if k > 0 {
        lemma_gravity_prefix(s, k - 1);
        assert(quiet_fall(s[k - 1], false, s[k]));
    }
}

/// Without input, a piece with room to fall moves down exactly once every twenty
/// ticks: of twenty ticks that start right after a fall, the first nineteen leave
/// it where it is and the twentieth moves it down one row and starts the count
/// over.
pub proof fn lemma_gravity_every_twenty_ticks(s: Seq<Playfield>)
    requires
        s.len() == 21,
        s[0].frames_since_last_fall == 0,
        forall|k: int| 0 <= k < 20 ==> quiet_fall(#[trigger] s[k], false, s[k + 1]),
    ensures
        forall|k: int| 0 <= k < 20 ==> #[trigger] s[k].falling_piece == s[0].falling_piece,
        s[20].falling_piece == dropped(s[0].falling_piece, 1),
        s[20].frames_since_last_fall == 0,
{
    assert forall|k: int| 0 <= k < 20 implies #[trigger] s[k].falling_piece
        == s[0].falling_piece by {
        lemma_gravity_prefix(s, k);
    }
    lemma_gravity_prefix(s, 19);
    assert(quiet_fall(s[19], false, s[20]));
}


/// A swap disables swapping at once, and only a lock enables it again: from a
/// state where swapping is refused, it stays refused through every tick that
/// neither locks a piece nor restarts the session.
pub proof fn lemma_swap_blocked_until_lock(
    s: Seq<Playfield>,
    inputs: Seq<InputSnapshot>,
    locked: Seq<bool>,
)
    requires
        s.len() == inputs.len() + 1,
        locked.len() == inputs.len(),
        !s[0].can_swap,
        forall|k: int| 0 <= k < inputs.len() ==> swap_step(#[trigger] s[k], inputs[k], locked[k], s[k + 1]),
        forall|k: int| 0 <= k < inputs.len() ==> !#[trigger] inputs[k].restart && !locked[k],
    ensures
        forall|k: int| 0 <= k < s.len() ==> !#[trigger] s[k].can_swap,
    decreases inputs.len(),
{
    if inputs.len() > 0 {
        let n = inputs.len() - 1;
        lemma_swap_blocked_until_lock(s.drop_last(), inputs.drop_last(), locked.drop_last());
        assert(swap_step(s[n], inputs[n], locked[n], s[n + 1]));
        assert(!inputs[n].restart && !locked[n]);
        assert(!s.drop_last()[n].can_swap);
        assert forall|k: int| 0 <= k < s.len() implies !#[trigger] s[k].can_swap by {
            if k < s.len() - 1 {
                assert(s[k] == s.drop_last()[k]);
            }
        }
    }
}

/// A swap allowed in a tick that locks nothing leaves swapping refused, and a tick
/// that locks a piece leaves it allowed.
pub proof fn lemma_swap_toggles(a: Playfield, input: InputSnapshot, locked: bool, b: Playfield)
    requires
        swap_step(a, input, locked, b),
        !a.has_lost || input.restart,
    ensures
        input.swap && !locked ==> !b.can_swap,
        locked ==> b.can_swap,
{
}


/// A lost session stays as it is: through ticks that do not restart it, every
/// state equals the first.
pub proof fn lemma_lost_session_frozen(s: Seq<Playfield>, inputs: Seq<InputSnapshot>)
    requires
        s.len() == inputs.len() + 1,
        s[0].has_lost,
        forall|k: int|
            0 <= k < inputs.len() ==> (!(#[trigger] inputs[k]).restart && s[k].has_lost ==> s[k + 1]
                == s[k]),
        forall|k: int| 0 <= k < inputs.len() ==> !(#[trigger] inputs[k]).restart,
    ensures
        forall|k: int| 0 <= k < s.len() ==> #[trigger] s[k] == s[0],
    decreases inputs.len(),
{
    if inputs.len() > 0 {
        let n = inputs.len() - 1;
        lemma_lost_session_frozen(s.drop_last(), inputs.drop_last());
        assert(s.drop_last()[n] == s[0]);
        assert(!inputs[n].restart);
        assert forall|k: int| 0 <= k < s.len() implies #[trigger] s[k] == s[0] by {
            if k < s.len() - 1 {
                assert(s[k] == s.drop_last()[k]);
            }
        }
    }
}


/// A one-row clear that does not empty the board scores 100 plus 50 for each step
/// of the combo, this clear included.
pub proof fn lemma_single_row_score(a: Playfield, b: Playfield)
    requires
        line_clear(a, b),
        rows_to_clear(a.grid).len() == 1,
        !grid_empty(b.grid),
        a.combo < u8::MAX,
        a.score + 100 + 50 * (a.combo + 1) <= u64::MAX,
    ensures
        b.combo == a.combo + 1,
        b.score == a.score + 100 + 50 * b.combo,
        b.b2b == 0,
        b.message.message == MessageType::Single,
{
}

/// Four rows cleared right after another four-row clear score 800 raised by half,
/// plus the combo bonus; the first four-row clear of a streak is not raised.
pub proof fn lemma_back_to_back_tetris(a: Playfield, b: Playfield)
    requires
        line_clear(a, b),
        rows_to_clear(a.grid).len() == 4,
        !grid_empty(b.grid),
        a.b2b < u16::MAX,
        a.combo < u8::MAX,
        a.score + 1200 + 50 * (a.combo + 1) <= u64::MAX,
    ensures
        b.b2b == a.b2b + 1,
        a.b2b >= 1 ==> b.score == a.score + 1200 + 50 * b.combo,
        a.b2b == 0 ==> b.score == a.score + 800 + 50 * b.combo,
        b.message.message == MessageType::Tetris,
{
}

/// A clear that leaves the board empty adds 3500, raised by half in a
/// back-to-back streak, on top of the points of the clear itself, and announces
/// an all clear in place of the row count.
pub proof fn lemma_all_clear_bonus(a: Playfield, b: Playfield)
    requires
        line_clear(a, b),
        rows_to_clear(a.grid).len() > 0,
        grid_empty(b.grid),
        a.score + 50 * 256 + 1200 + 5250 <= u64::MAX,
    ensures
        b.score == a.score + 50 * b.combo + with_b2b(base_points(rows_to_clear(a.grid).len() as int), b.b2b)
            + with_b2b(3500, b.b2b),
        b.message.message == MessageType::AllClear,
{
}

} // verus!
