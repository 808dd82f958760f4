//! The plain data types of the engine: configuration, pieces, cells and inputs.
use vstd::prelude::*;

verus! {

/// A block position `(x, y)` in the pile; `y` grows upwards.
pub type Coords = (i32, i32);

/// Frame counts that govern the pace of the game.
#[derive(Debug, Clone, Copy, PartialEq, Eq, Structural)]
pub struct Config {
    pub spawn: u32,
    pub das: u32,
    pub arr: u32,
    pub are: u32,
    pub gravity: u32,
    pub softdrop: u32,
    pub line_clear: u32,
}

impl Default for Config {
    fn default() -> (r: Config)
        ensures
            r == (Config {
                spawn: 60,
                das: 6,
                arr: 0,
                are: 0,
                gravity: 60,
                softdrop: 0,
                line_clear: 0,
            }),
    {
        Config { spawn: 60, das: 6, arr: 0, are: 0, gravity: 60, softdrop: 0, line_clear: 0 }
    }
}

/// The seven tetromino shapes.
#[derive(Debug, Clone, Copy, PartialEq, Eq, Structural)]
pub enum PieceKind {
    I,
    J,
    L,
    O,
    S,
    T,
    Z,
}

/// The content of an occupied pile cell.
#[derive(Debug, Clone, Copy, PartialEq, Eq, Structural)]
pub enum Cell {
    PieceKind(PieceKind),
    Garbage,
}

/// The four orientations of a piece, in clockwise order.
#[derive(Debug, Clone, Copy, PartialEq, Eq, Structural)]
pub enum Orientation {
    N,
    E,
    S,
    W,
}

/// Position of an orientation in the clockwise cycle N, E, S, W.
pub open spec fn orientation_index(o: Orientation) -> int {
    match o {
        Orientation::N => 0,
        Orientation::E => 1,
        Orientation::S => 2,
        Orientation::W => 3,
    }
}

/// The orientation at a position of the clockwise cycle, taken modulo 4.
pub open spec fn orientation_at(i: int) -> Orientation {
    let k = i % 4;
    if k == 0 {
        Orientation::N
    } else if k == 1 {
        Orientation::E
    } else if k == 2 {
        Orientation::S
    } else {
        Orientation::W
    }
}

/// `o` turned clockwise by `n` quarter turns; a count that is not positive turns nothing.
pub open spec fn rotated(o: Orientation, n: int) -> Orientation {
    if n <= 0 {
        o
    } else {
        orientation_at(orientation_index(o) + n)
    }
}

impl Orientation {
    /// Turns the orientation clockwise `n` times (not at all when `n <= 0`).
    pub fn rotate_cw(&self, n: i32) -> (r: Orientation)
        ensures
            r == rotated(*self, n as int),
    {
        let mut result = *self;
        if n <= 0 {
            return result;
        }
        let mut i: i32 = 0;
        while i < n
            invariant
                0 <= i <= n,
                result == orientation_at(orientation_index(*self) + i),
            decreases n - i,
        {
            result = match result {
                Orientation::N => Orientation::E,
                Orientation::E => Orientation::S,
                Orientation::S => Orientation::W,
                Orientation::W => Orientation::N,
            };
            proof {
                let a = orientation_index(*self) + i;
                assert((a + 1) % 4 == (a % 4 + 1) % 4);
            }
            i = i + 1;
        }
        result
    }
}

/// Turning by `a` and then by `b` quarter turns (both non-negative) is turning by `a + b`.
pub proof fn lemma_rotated_compose(o: Orientation, a: int, b: int)
    requires
        0 <= a,
        0 <= b,
    ensures
        rotated(rotated(o, a), b) == rotated(o, a + b),
{
    let i = orientation_index(o);
    if a > 0 && b > 0 {
        assert(orientation_index(orientation_at(i + a)) == (i + a) % 4);
        assert(((i + a) % 4 + b) % 4 == (i + a + b) % 4) by (nonlinear_arith);
    }
}

/// Four quarter turns bring every orientation back to itself.
pub proof fn lemma_rotated_full_turn(o: Orientation)
    ensures
        rotated(o, 4) == o,
{
}

/// A clockwise quarter turn goes N, E, S, W and back to N; a counter-clockwise one (three
/// clockwise quarter turns) goes the other way, and a half turn swaps N with S and E with W.
pub proof fn lemma_clockwise_order()
    ensures
        rotated(Orientation::N, 1) == Orientation::E,
        rotated(Orientation::E, 1) == Orientation::S,
        rotated(Orientation::S, 1) == Orientation::W,
        rotated(Orientation::W, 1) == Orientation::N,
        rotated(Orientation::N, 3) == Orientation::W,
        rotated(Orientation::E, 3) == Orientation::N,
        rotated(Orientation::S, 3) == Orientation::E,
        rotated(Orientation::W, 3) == Orientation::S,
        rotated(Orientation::N, 2) == Orientation::S,
        rotated(Orientation::E, 2) == Orientation::W,
{
}

/// A game action that a player can begin (press) or end (release).
#[derive(Debug, Clone, Copy, PartialEq, Eq, Structural)]
pub enum Action {
    Flip,
    Hold,
    Rotate(Direction),
    Move(Direction),
    Harddrop,
    Softdrop,
}

/// One input event of a frame.
#[derive(Debug, Clone, Copy, PartialEq, Eq, Structural)]
pub enum Input {
    Begin(Action),
    End(Action),
}

/// A horizontal direction.
#[derive(Debug, Clone, Copy, PartialEq, Eq, Structural)]
pub enum Direction {
    Left,
    Right,
}

/// The column step of a direction.
pub open spec fn direction_offset(d: Direction) -> int {
    match d {
        Direction::Left => -1,
        Direction::Right => 1,
    }
}

/// Moving left goes one column towards column 0, moving right one column away from it.
pub proof fn lemma_direction_offsets()
    ensures
        direction_offset(Direction::Left) == -1,
        direction_offset(Direction::Right) == 1,
{
}

impl Direction {
    /// -1 for left, 1 for right.
    pub fn offset(&self) -> (r: i32)
        ensures
            r == direction_offset(*self),
    {
        match self {
            Direction::Left => -1,
            Direction::Right => 1,
        }
    }
}

/// The held piece; a locked hold cannot be swapped again until the next piece locks.
#[derive(Debug, Clone, Copy, PartialEq, Eq, Structural)]
pub struct HoldPiece {
    pub kind: PieceKind,
    pub is_locked: bool,
}

/// What happened during the last frame.
#[derive(Debug, Clone, Copy, PartialEq, Eq, Structural)]
pub struct FrameOutcome {
    pub tspin: bool,
    pub lines_cleared: i32,
}

impl Default for FrameOutcome {
    fn default() -> (r: FrameOutcome)
        ensures
            r == (FrameOutcome { tspin: false, lines_cleared: 0 }),
    {
        FrameOutcome { tspin: false, lines_cleared: 0 }
    }
}

} // verus!
