//! Integer grid coordinates and the four movement directions.

use vstd::prelude::*;

use crate::error::GenError;

verus! {

/// One of the four cardinal movement directions, indexed `0..4`
/// in the order `Up`, `Right`, `Down`, `Left`.
#[derive(Clone, Copy, Debug, PartialEq, Eq, Structural)]
pub enum Direction {
    Up,
    Right,
    Down,
    Left,
}

/// The cyclic successor of a direction (a quarter turn clockwise).
pub open spec fn spec_next_dir(d: Direction) -> Direction {
    match d {
        Direction::Up => Direction::Right,
        Direction::Right => Direction::Down,
        Direction::Down => Direction::Left,
        Direction::Left => Direction::Up,
    }
}

/// The cyclic predecessor of a direction (a quarter turn counter-clockwise).
pub open spec fn spec_prev_dir(d: Direction) -> Direction {
    match d {
        Direction::Up => Direction::Left,
        Direction::Right => Direction::Up,
        Direction::Down => Direction::Right,
        Direction::Left => Direction::Down,
    }
}

/// The direction standing at an index of the fixed order.
pub open spec fn spec_dir_of_index(i: int) -> Direction {
    if i == 0 {
        Direction::Up
    } else if i == 1 {
        Direction::Right
    } else if i == 2 {
        Direction::Down
    } else {
        Direction::Left
    }
}

/// The index of a direction in the fixed `Up`, `Right`, `Down`, `Left` order.
pub open spec fn spec_dir_index(d: Direction) -> int {
    match d {
        Direction::Up => 0,
        Direction::Right => 1,
        Direction::Down => 2,
        Direction::Left => 3,
    }
}

impl Direction {
    /// A quarter turn counter-clockwise.
    pub fn prev(&self) -> (r: Self)
        ensures
            r == spec_prev_dir(*self),
    {
        match self {
            Self::Up => Self::Left,
            Self::Right => Self::Up,
            Self::Down => Self::Right,
            Self::Left => Self::Down,
        }
    }

    /// A quarter turn clockwise.
    pub fn next(&self) -> (r: Self)
        ensures
            r == spec_next_dir(*self),
    {
        match self {
            Self::Up => Self::Right,
            Self::Right => Self::Down,
            Self::Down => Self::Left,
            Self::Left => Self::Up,
        }
    }

    /// The opposite direction (a half turn).
    pub fn backwards(&self) -> (r: Self)
        ensures
            r == spec_next_dir(spec_next_dir(*self)),
    {
        self.next().next()
    }

    /// The direction at `id` in the fixed order; indices past the last
    /// direction fall back to `Up`.
    pub fn from_index(id: usize) -> (r: Self)
        ensures
            id < 4 ==> spec_dir_index(r) == id && r == spec_dir_of_index(id as int),
            id >= 4 ==> r == Direction::Up,
    {
        match id {
            0 => Self::Up,
            1 => Self::Right,
            2 => Self::Down,
            3 => Self::Left,
            _ => Self::Up,
        }
    }

    /// The index of this direction in the fixed order.
    pub fn index(&self) -> (r: usize)
        ensures
            r == spec_dir_index(*self),
    {
        match self {
            Self::Up => 0,
            Self::Right => 1,
            Self::Down => 2,
            Self::Left => 3,
        }
    }
}

/// An integer coordinate on the grid, `x` growing rightwards and `y`
/// growing downwards.
#[derive(Clone, Copy, Debug, PartialEq, Eq, Structural)]
pub struct Position {
    pub x: usize,
    pub y: usize,
}

/// The squared Euclidean distance between two positions.
pub open spec fn spec_sq_dist(a: Position, b: Position) -> int {
    (a.x - b.x) * (a.x - b.x) + (a.y - b.y) * (a.y - b.y)
}

/// The coordinate a position reaches after one step in `d`, as a pair of
/// mathematical integers (it may lie outside any grid, or below zero).
pub open spec fn spec_shifted(p: Position, d: Direction) -> (int, int) {
    match d {
        Direction::Up => (p.x as int, p.y - 1),
        Direction::Right => (p.x + 1, p.y as int),
        Direction::Down => (p.x as int, p.y + 1),
        Direction::Left => (p.x - 1, p.y as int),
    }
}

/// The largest coordinate the generator accepts on either axis.  Keeping
/// both axes below this bound keeps every squared distance inside `u64`.
pub const MAX_DIM: usize = 65536;

impl Position {
    /// A position from its two coordinates.
    pub fn new(x: usize, y: usize) -> (r: Self)
        ensures
            r.x == x && r.y == y,
    {
        Position { x, y }
    }

    /// The position one step away in `d`, under the grid `width x height`.
    /// Fails closed with `OutOfBounds` when the step would leave the grid
    /// (including underflow past the origin).
    pub fn shifted(&self, d: Direction, width: usize, height: usize) -> (r: Result<
        Position,
        GenError,
    >)
        requires
            self.x < width,
            self.y < height,
        ensures
            match r {
                Ok(q) => {
                    &&& q.x < width
                    &&& q.y < height
                    &&& (q.x as int, q.y as int) == spec_shifted(*self, d)
                },
                Err(e) => {
                    &&& e == GenError::OutOfBounds
                    &&& {
                        let (qx, qy) = spec_shifted(*self, d);
                        qx < 0 || qy < 0 || qx >= width || qy >= height
                    }
                },
            },
    {
        match d {
            Direction::Up => {
                if self.y >= 1 {
                    Ok(Position { x: self.x, y: self.y - 1 })
                } else {
                    Err(GenError::OutOfBounds)
                }
            },
            Direction::Right => {
                if self.x + 1 < width {
                    Ok(Position { x: self.x + 1, y: self.y })
                } else {
                    Err(GenError::OutOfBounds)
                }
            },
            Direction::Down => {
                if self.y + 1 < height {
                    Ok(Position { x: self.x, y: self.y + 1 })
                } else {
                    Err(GenError::OutOfBounds)
                }
            },
            Direction::Left => {
                if self.x >= 1 {
                    Ok(Position { x: self.x - 1, y: self.y })
                } else {
                    Err(GenError::OutOfBounds)
                }
            },
        }
    }

    /// The squared Euclidean distance from `self` to `other`.
    pub fn sq_dist(&self, other: &Position) -> (r: u64)
        requires
            self.x < MAX_DIM,
            self.y < MAX_DIM,
            other.x < MAX_DIM,
            other.y < MAX_DIM,
        ensures
            r == spec_sq_dist(*self, *other),
    {
        let dx: u64 = if self.x >= other.x {
            (self.x - other.x) as u64
        } else {
            (other.x - self.x) as u64
        };
        let dy: u64 = if self.y >= other.y {
            (self.y - other.y) as u64
        } else {
            (other.y - self.y) as u64
        };
        assert(dx * dx + dy * dy == spec_sq_dist(*self, *other) && dx * dx + dy * dy
            < 0x2_0000_0000) by (nonlinear_arith)
            requires
                dx < 0x1_0000,
                dy < 0x1_0000,
                dx == if self.x >= other.x {
                    self.x - other.x
                } else {
                    other.x - self.x
                },
                dy == if self.y >= other.y {
                    self.y - other.y
                } else {
                    other.y - self.y
                },
        ;
        dx * dx + dy * dy
    }
}

/// One shift moves a position by exactly one cell: the squared distance
/// between a position and its shifted neighbour is one.
pub proof fn lemma_shift_dist(p: Position, d: Direction, q: Position)
    requires
        (q.x as int, q.y as int) == spec_shifted(p, d),
    ensures
        spec_sq_dist(p, q) == 1,
{
    match d {
        Direction::Up => {
            assert(spec_sq_dist(p, q) == 1) by (nonlinear_arith)
                requires
                    q.x == p.x,
                    q.y == p.y - 1,
            ;
        },
        Direction::Right => {
            assert(spec_sq_dist(p, q) == 1) by (nonlinear_arith)
                requires
                    q.x == p.x + 1,
                    q.y == p.y,
            ;
        },
        Direction::Down => {
            assert(spec_sq_dist(p, q) == 1) by (nonlinear_arith)
                requires
                    q.x == p.x,
                    q.y == p.y + 1,
            ;
        },
        Direction::Left => {
            assert(spec_sq_dist(p, q) == 1) by (nonlinear_arith)
                requires
                    q.x == p.x - 1,
                    q.y == p.y,
            ;
        },
    }
}

} // verus!
