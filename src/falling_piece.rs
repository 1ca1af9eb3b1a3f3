//! Tetromino shapes, the active piece and its rotation and kick tables.

use vstd::prelude::*;

verus! {

#[derive(Clone, Copy, PartialEq, Eq, Debug, Structural)]
pub enum Tetromino {
    I,
    O,
    T,
    Z,
    S,
    J,
    L,
    Empty,
}

#[derive(Clone, Copy, PartialEq, Eq, Debug, Structural)]
pub enum Orientation {
    Up,
    Left,
    Down,
    Right,
}

#[derive(Clone, Copy, PartialEq, Eq, Debug, Structural)]
pub enum Shift {
    Left,
    Right,
}

#[derive(Clone, Copy, PartialEq, Eq, Debug, Structural)]
pub enum RotationType {
    Clockwise,
    CounterClockwise,
    OneEighty,
}

pub type CoordinatePair = (i8, i8);

pub type OffsetTable = [CoordinatePair; 5];

pub type TetrominoMap = [CoordinatePair; 4];

/// A relative cell given by its two coordinates.
pub open spec fn cp(x: int, y: int) -> CoordinatePair {
    (x as i8, y as i8)
}

/// The four cells of a tetromino in its spawn orientation, relative to its pivot.
pub open spec fn initial_shape(t: Tetromino) -> Seq<CoordinatePair> {
    match t {
        Tetromino::I => seq![cp(-1, 0), cp(0, 0), cp(1, 0), cp(2, 0)],
        Tetromino::O => seq![cp(0, -1), cp(1, -1), cp(0, 0), cp(1, 0)],
        Tetromino::T => seq![cp(0, -1), cp(-1, 0), cp(0, 0), cp(1, 0)],
        Tetromino::S => seq![cp(0, -1), cp(1, -1), cp(-1, 0), cp(0, 0)],
        Tetromino::Z => seq![cp(-1, -1), cp(0, -1), cp(0, 0), cp(1, 0)],
        Tetromino::J => seq![cp(-1, -1), cp(-1, 0), cp(0, 0), cp(1, 0)],
        Tetromino::L => seq![cp(1, -1), cp(-1, 0), cp(0, 0), cp(1, 0)],
        Tetromino::Empty => seq![cp(0, 0), cp(0, 0), cp(0, 0), cp(0, 0)],
    }
}

/// The image of one relative cell under a rotation.
pub open spec fn turn_cell(c: CoordinatePair, rt: RotationType) -> CoordinatePair {
    match rt {
        RotationType::Clockwise => ((-c.1) as i8, c.0),
        RotationType::CounterClockwise => (c.1, (-c.0) as i8),
        RotationType::OneEighty => ((-c.0) as i8, (-c.1) as i8),
    }
}

/// The orientation reached from `o` by a rotation.
pub open spec fn next_orientation(o: Orientation, rt: RotationType) -> Orientation {
    match rt {
        RotationType::Clockwise => match o {
            Orientation::Up => Orientation::Right,
            Orientation::Right => Orientation::Down,
            Orientation::Down => Orientation::Left,
            Orientation::Left => Orientation::Up,
        },
        RotationType::CounterClockwise => match o {
            Orientation::Up => Orientation::Left,
            Orientation::Left => Orientation::Down,
            Orientation::Down => Orientation::Right,
            Orientation::Right => Orientation::Up,
        },
        RotationType::OneEighty => match o {
            Orientation::Up => Orientation::Down,
            Orientation::Down => Orientation::Up,
            Orientation::Left => Orientation::Right,
            Orientation::Right => Orientation::Left,
        },
    }
}

/// Number of clockwise quarter turns from `Up` to `o`.
pub open spec fn quarter_turns(o: Orientation) -> int {
    match o {
        Orientation::Up => 0,
        Orientation::Right => 1,
        Orientation::Down => 2,
        Orientation::Left => 3,
    }
}

/// A relative cell turned clockwise `n` quarter turns, for `0 <= n < 4`.
pub open spec fn turned_cw(c: CoordinatePair, n: int) -> CoordinatePair {
    if n == 0 {
        c
    } else if n == 1 {
        ((-c.1) as i8, c.0)
    } else if n == 2 {
        ((-c.0) as i8, (-c.1) as i8)
    } else {
        (c.1, (-c.0) as i8)
    }
}

/// The shape of tetromino `t` in orientation `o`: its spawn shape turned clockwise
/// as many quarter turns as lead from `Up` to `o`.
pub open spec fn shape_of(t: Tetromino, o: Orientation) -> Seq<CoordinatePair> {
    initial_shape(t).map_values(|c: CoordinatePair| turned_cw(c, quarter_turns(o)))
}

/// Every relative cell of the shape lies within two cells of the pivot.
pub open spec fn shape_is_compact(s: Seq<CoordinatePair>) -> bool {
    forall|k: int| 0 <= k < s.len() ==> -2 <= #[trigger] s[k].0 <= 2 && -2 <= s[k].1 <= 2
}

/// The kick table of a tetromino in an orientation.
pub open spec fn offset_table_of(t: Tetromino, o: Orientation) -> Seq<CoordinatePair> {
    match t {
        Tetromino::I => match o {
            Orientation::Up => seq![cp(0, 0), cp(-1, 0), cp(2, 0), cp(-1, 0), cp(2, 0)],
            Orientation::Right => seq![cp(-1, 0), cp(0, 0), cp(0, 0), cp(0, 1), cp(0, -2)],
            Orientation::Down => seq![cp(-1, 1), cp(1, 1), cp(-2, 1), cp(1, 0), cp(-2, 0)],
            Orientation::Left => seq![cp(0, 1), cp(0, 1), cp(0, 1), cp(0, -1), cp(0, 2)],
        },
        Tetromino::O => match o {
            Orientation::Up => seq![cp(0, 0), cp(0, 0), cp(0, 0), cp(0, 0), cp(0, 0)],
            Orientation::Right => seq![cp(0, -1), cp(0, -1), cp(0, -1), cp(0, -1), cp(0, -1)],
            Orientation::Down => seq![cp(-1, -1), cp(-1, -1), cp(-1, -1), cp(-1, -1), cp(-1, -1)],
            Orientation::Left => seq![cp(-1, 0), cp(-1, 0), cp(-1, 0), cp(-1, 0), cp(-1, 0)],
        },
        _ => match o {
            Orientation::Up => seq![cp(0, 0), cp(0, 0), cp(0, 0), cp(0, 0), cp(0, 0)],
            Orientation::Right => seq![cp(0, 0), cp(1, 0), cp(1, -1), cp(0, 2), cp(1, 2)],
            Orientation::Down => seq![cp(0, 0), cp(0, 0), cp(0, 0), cp(0, 0), cp(0, 0)],
            Orientation::Left => seq![cp(0, 0), cp(-1, 0), cp(-1, -1), cp(0, 2), cp(-1, 2)],
        },
    }
}

/// The display colour of each tetromino as red, green, blue and alpha; the empty
/// square is fully transparent.
pub open spec fn color_of(t: Tetromino) -> (u8, u8, u8, u8) {
    match t {
        Tetromino::I => (49, 199, 239, 255),
        Tetromino::O => (247, 211, 8, 255),
        Tetromino::T => (173, 77, 156, 255),
        Tetromino::S => (66, 182, 66, 255),
        Tetromino::Z => (239, 32, 41, 255),
        Tetromino::J => (90, 101, 173, 255),
        Tetromino::L => (239, 121, 33, 255),
        Tetromino::Empty => (0, 0, 0, 0),
    }
}

impl Tetromino {
    pub fn get_tetromino_color(&self) -> (r: (u8, u8, u8, u8))
        ensures
            r == color_of(*self),
    {
        match self {
            Tetromino::I => (49, 199, 239, 255),
            Tetromino::O => (247, 211, 8, 255),
            Tetromino::T => (173, 77, 156, 255),
            Tetromino::S => (66, 182, 66, 255),
            Tetromino::Z => (239, 32, 41, 255),
            Tetromino::J => (90, 101, 173, 255),
            Tetromino::L => (239, 121, 33, 255),
            Tetromino::Empty => (0, 0, 0, 0),
        }
    }

    pub fn initial_tetromino_map(&self) -> (r: TetrominoMap)
        ensures
            r@ == initial_shape(*self),
    {
        let r: TetrominoMap = match self {
            Tetromino::I => [(-1, 0), (0, 0), (1, 0), (2, 0)],
            Tetromino::O => [(0, -1), (1, -1), (0, 0), (1, 0)],
            Tetromino::T => [(0, -1), (-1, 0), (0, 0), (1, 0)],
            Tetromino::S => [(0, -1), (1, -1), (-1, 0), (0, 0)],
            Tetromino::Z => [(-1, -1), (0, -1), (0, 0), (1, 0)],
            Tetromino::J => [(-1, -1), (-1, 0), (0, 0), (1, 0)],
            Tetromino::L => [(1, -1), (-1, 0), (0, 0), (1, 0)],
            Tetromino::Empty => [(0, 0), (0, 0), (0, 0), (0, 0)],
        };
        assert(r@ =~= initial_shape(*self));
        r
    }
}


/// A shape turned by one rotation, cell by cell.
pub open spec fn turned_shape(s: Seq<CoordinatePair>, rt: RotationType) -> Seq<CoordinatePair> {
    s.map_values(|c: CoordinatePair| turn_cell(c, rt))
}

/// Number of clockwise quarter turns that a rotation amounts to.
pub open spec fn rotation_quarters(rt: RotationType) -> int {
    match rt {
        RotationType::Clockwise => 1,
        RotationType::CounterClockwise => 3,
        RotationType::OneEighty => 2,
    }
}

proof fn lemma_turn_cell(c: CoordinatePair, n: int, rt: RotationType)
    requires
        -2 <= c.0 <= 2,
        -2 <= c.1 <= 2,
        0 <= n < 4,
    ensures
        turn_cell(turned_cw(c, n), rt) == turned_cw(c, (n + rotation_quarters(rt)) % 4),
        -2 <= turned_cw(c, n).0 <= 2,
        -2 <= turned_cw(c, n).1 <= 2,
{
}

proof fn lemma_quarter_turns(o: Orientation, rt: RotationType)
    ensures
        quarter_turns(next_orientation(o, rt)) == (quarter_turns(o) + rotation_quarters(rt)) % 4,
{
}

/// Every shape that a tetromino takes lies within two cells of its pivot.
pub proof fn lemma_shape_compact(t: Tetromino, o: Orientation)
    ensures
        shape_of(t, o).len() == 4,
        shape_is_compact(shape_of(t, o)),
{
    assert forall|k: int| 0 <= k < 4 implies -2 <= #[trigger] shape_of(t, o)[k].0 <= 2 && -2
        <= shape_of(t, o)[k].1 <= 2 by {
        lemma_turn_cell(initial_shape(t)[k], quarter_turns(o), RotationType::Clockwise);
    }
}

/// Turning the shape of a tetromino gives its shape in the orientation that the
/// rotation leads to.
pub proof fn lemma_turned_shape(t: Tetromino, o: Orientation, rt: RotationType)
    ensures
        turned_shape(shape_of(t, o), rt) == shape_of(t, next_orientation(o, rt)),
{
    lemma_quarter_turns(o, rt);
    assert forall|k: int| 0 <= k < 4 implies #[trigger] turned_shape(shape_of(t, o), rt)[k]
        == shape_of(t, next_orientation(o, rt))[k] by {
        lemma_turn_cell(initial_shape(t)[k], quarter_turns(o), rt);
    }
    assert(turned_shape(shape_of(t, o), rt) =~= shape_of(t, next_orientation(o, rt)));
}

/// The piece under the player's control: which tetromino, how it is turned, where
/// its pivot stands on the board, and its four cells relative to the pivot.
#[derive(Clone, Copy, Debug)]
pub struct FallingPiece {
    pub tetromino: Tetromino,
    pub orientation: Orientation,
    pub position: (i8, i8),
    pub tetromino_map: TetrominoMap,
}

impl FallingPiece {
    /// The cells are the tetromino's spawn shape turned to the current orientation.
    pub open spec fn wf(&self) -> bool {
        self.tetromino_map@ == shape_of(self.tetromino, self.orientation)
    }

    pub fn new(tetromino: Tetromino, position: (i8, i8)) -> (r: FallingPiece)
        ensures
            r.tetromino == tetromino,
            r.orientation == Orientation::Up,
            r.position == position,
            r.tetromino_map@ == initial_shape(tetromino),
            r.wf(),
    {
        let orientation = Orientation::Up;
        let tetromino_map = tetromino.initial_tetromino_map();
        assert(shape_of(tetromino, orientation) =~= initial_shape(tetromino));
        FallingPiece { tetromino, orientation, position, tetromino_map }
    }

    /// Moves the piece one row down.
    pub fn fall(&mut self)
        requires
            old(self).position.1 < 127,
        ensures
            final(self).position == (old(self).position.0, (old(self).position.1 + 1) as i8),
            final(self).tetromino == old(self).tetromino,
            final(self).orientation == old(self).orientation,
            final(self).tetromino_map == old(self).tetromino_map,
    {
        self.position.1 = self.position.1 + 1;
    }

    /// Moves the piece one column left or right.
    pub fn shift(&mut self, shift: Shift)
        requires
            shift == Shift::Left ==> old(self).position.0 > i8::MIN,
            shift == Shift::Right ==> old(self).position.0 < i8::MAX,
        ensures
            final(self).position == (match shift {
                Shift::Left => (old(self).position.0 - 1) as i8,
                Shift::Right => (old(self).position.0 + 1) as i8,
            }, old(self).position.1),
            final(self).tetromino == old(self).tetromino,
            final(self).orientation == old(self).orientation,
            final(self).tetromino_map == old(self).tetromino_map,
    {
        match shift {
            Shift::Left => self.position.0 = self.position.0 - 1,
            Shift::Right => self.position.0 = self.position.0 + 1,
        }
    }

    /// Turns the cells about the pivot and advances the orientation; the position is
    /// left to the kick resolution of the board.
    pub fn turn(&mut self, rt: RotationType)
        requires
            old(self).wf(),
        ensures
            final(self).tetromino_map@ == turned_shape(old(self).tetromino_map@, rt),
            final(self).orientation == next_orientation(old(self).orientation, rt),
            final(self).tetromino == old(self).tetromino,
            final(self).position == old(self).position,
            final(self).wf(),
    {
        proof {
            lemma_shape_compact(self.tetromino, self.orientation);
            lemma_turned_shape(self.tetromino, self.orientation, rt);
        }
        let m = self.tetromino_map;
        let turned: TetrominoMap = [
            turn_pair(m[0], rt),
            turn_pair(m[1], rt),
            turn_pair(m[2], rt),
            turn_pair(m[3], rt),
        ];
        assert(turned@ =~= turned_shape(m@, rt));
        self.tetromino_map = turned;
        self.orientation = match (self.orientation, rt) {
            (Orientation::Up, RotationType::Clockwise)
            | (Orientation::Left, RotationType::OneEighty)
            | (Orientation::Down, RotationType::CounterClockwise) => Orientation::Right,
            (Orientation::Right, RotationType::Clockwise)
            | (Orientation::Up, RotationType::OneEighty)
            | (Orientation::Left, RotationType::CounterClockwise) => Orientation::Down,
            (Orientation::Down, RotationType::Clockwise)
            | (Orientation::Right, RotationType::OneEighty)
            | (Orientation::Up, RotationType::CounterClockwise) => Orientation::Left,
            (Orientation::Left, RotationType::Clockwise)
            | (Orientation::Down, RotationType::OneEighty)
            | (Orientation::Right, RotationType::CounterClockwise) => Orientation::Up,
        };
    }

    /// The five kick offsets of the piece in its current orientation.
    pub fn get_offset_table(&self) -> (r: OffsetTable)
        ensures
            r@ == offset_table_of(self.tetromino, self.orientation),
    {
        let r: OffsetTable = match self.tetromino {
            Tetromino::I => match self.orientation {
                Orientation::Up => [(0, 0), (-1, 0), (2, 0), (-1, 0), (2, 0)],
                Orientation::Right => [(-1, 0), (0, 0), (0, 0), (0, 1), (0, -2)],
                Orientation::Down => [(-1, 1), (1, 1), (-2, 1), (1, 0), (-2, 0)],
                Orientation::Left => [(0, 1), (0, 1), (0, 1), (0, -1), (0, 2)],
            },
            Tetromino::O => match self.orientation {
                Orientation::Up => [(0, 0), (0, 0), (0, 0), (0, 0), (0, 0)],
                Orientation::Right => [(0, -1), (0, -1), (0, -1), (0, -1), (0, -1)],
                Orientation::Down => [(-1, -1), (-1, -1), (-1, -1), (-1, -1), (-1, -1)],
                Orientation::Left => [(-1, 0), (-1, 0), (-1, 0), (-1, 0), (-1, 0)],
            },
            _ => match self.orientation {
                Orientation::Up => [(0, 0), (0, 0), (0, 0), (0, 0), (0, 0)],
                Orientation::Right => [(0, 0), (1, 0), (1, -1), (0, 2), (1, 2)],
                Orientation::Down => [(0, 0), (0, 0), (0, 0), (0, 0), (0, 0)],
                Orientation::Left => [(0, 0), (-1, 0), (-1, -1), (0, 2), (-1, 2)],
            },
        };
        assert(r@ =~= offset_table_of(self.tetromino, self.orientation));
        r
    }
}

fn turn_pair(c: CoordinatePair, rt: RotationType) -> (r: CoordinatePair)
    requires
        -2 <= c.0 <= 2,
        -2 <= c.1 <= 2,
    ensures
        r == turn_cell(c, rt),
{
    match rt {
        RotationType::Clockwise => (-c.1, c.0),
        RotationType::CounterClockwise => (c.1, -c.0),
        RotationType::OneEighty => (-c.0, -c.1),
    }
}

/// Four clockwise turns bring a well-formed piece back to the shape and the
/// orientation it started from.
pub proof fn lemma_four_clockwise_turns(p: FallingPiece)
    requires
        p.wf(),
    ensures
        turned_shape(
            turned_shape(
                turned_shape(
                    turned_shape(p.tetromino_map@, RotationType::Clockwise),
                    RotationType::Clockwise,
                ),
                RotationType::Clockwise,
            ),
            RotationType::Clockwise,
        ) == p.tetromino_map@,
        next_orientation(
            next_orientation(
                next_orientation(
                    next_orientation(p.orientation, RotationType::Clockwise),
                    RotationType::Clockwise,
                ),
                RotationType::Clockwise,
            ),
            RotationType::Clockwise,
        ) == p.orientation,
{
    let cw = RotationType::Clockwise;
    let t = p.tetromino;
    let o1 = next_orientation(p.orientation, cw);
    let o2 = next_orientation(o1, cw);
    let o3 = next_orientation(o2, cw);
    lemma_turned_shape(t, p.orientation, cw);
    lemma_turned_shape(t, o1, cw);
    lemma_turned_shape(t, o2, cw);
    lemma_turned_shape(t, o3, cw);
}

} // verus!
