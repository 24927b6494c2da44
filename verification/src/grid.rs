//! Integer 2D coordinates, the fixed-size grid, bounds checking, the
//! Manhattan-distance heuristic, and axis-aligned movement directions.

use vstd::prelude::*;

verus! {

/// Width of the play field, in cells.
pub const GRID_WIDTH: i32 = 50;

/// Height of the play field, in cells.
pub const GRID_HEIGHT: i32 = 40;

/// A grid cell, identified by its column `x` and row `y`.
#[derive(Clone, Copy, PartialEq, Eq, Structural, Debug)]
pub struct Coord {
    pub x: i32,
    pub y: i32,
}

/// A cell lies on the play field iff both coordinates are within the
/// configured grid bounds.
pub open spec fn in_bounds_spec(c: Coord) -> bool {
    0 <= c.x < GRID_WIDTH && 0 <= c.y < GRID_HEIGHT
}

/// Bounds check against the fixed grid; a pure predicate.
pub fn in_bounds(c: Coord) -> (r: bool)
    ensures
        r == in_bounds_spec(c),
{
    0 <= c.x && c.x < GRID_WIDTH && 0 <= c.y && c.y < GRID_HEIGHT
}

/// The bounds check is a pure predicate: equal coordinates always agree.
pub proof fn lemma_in_bounds_pure(a: Coord, b: Coord)
    requires
        a == b,
    ensures
        in_bounds_spec(a) == in_bounds_spec(b),
{
}

pub open spec fn abs_spec(v: int) -> int {
    if v < 0 {
        -v
    } else {
        v
    }
}

/// `|a.x - b.x| + |a.y - b.y|`; a heuristic, never a true path cost.
pub open spec fn manhattan_spec(a: Coord, b: Coord) -> int {
    abs_spec(a.x - b.x) + abs_spec(a.y - b.y)
}

/// Manhattan distance between two on-grid cells.
pub fn manhattan_distance(a: Coord, b: Coord) -> (d: i32)
    requires
        in_bounds_spec(a),
        in_bounds_spec(b),
    ensures
        d == manhattan_spec(a, b),
{
    let dx = if a.x >= b.x {
        a.x - b.x
    } else {
        b.x - a.x
    };
    let dy = if a.y >= b.y {
        a.y - b.y
    } else {
        b.y - a.y
    };
    dx + dy
}

/// One of the four axis-aligned unit directions a snake can travel in.
#[derive(Clone, Copy, PartialEq, Eq, Structural, Debug)]
pub enum Dir {
    Up,
    Down,
    Left,
    Right,
}

impl Dir {
    /// Horizontal component of the unit vector.
    pub open spec fn dx_spec(self) -> int {
        match self {
            Dir::Left => -1,
            Dir::Right => 1,
            _ => 0,
        }
    }

    /// Vertical component of the unit vector; `Up` decreases `y`.
    pub open spec fn dy_spec(self) -> int {
        match self {
            Dir::Up => -1,
            Dir::Down => 1,
            _ => 0,
        }
    }

    /// The direction pointing the opposite way.
    pub open spec fn opposite_spec(self) -> Dir {
        match self {
            Dir::Up => Dir::Down,
            Dir::Down => Dir::Up,
            Dir::Left => Dir::Right,
            Dir::Right => Dir::Left,
        }
    }

    pub fn opposite(self) -> (r: Dir)
        ensures
            r == self.opposite_spec(),
    {
        match self {
            Dir::Up => Dir::Down,
            Dir::Down => Dir::Up,
            Dir::Left => Dir::Right,
            Dir::Right => Dir::Left,
        }
    }

    /// The cell one step from `c` in this direction.
    pub open spec fn step_spec(self, c: Coord) -> Coord {
        Coord { x: (c.x + self.dx_spec()) as i32, y: (c.y + self.dy_spec()) as i32 }
    }

    /// Advance an on-grid cell one step; the result may be off-grid but
    /// never overflows.
    pub fn step(self, c: Coord) -> (r: Coord)
        requires
            in_bounds_spec(c),
        ensures
            r == self.step_spec(c),
    {
        let dx: i32 = match self {
            Dir::Left => -1,
            Dir::Right => 1,
            _ => 0,
        };
        let dy: i32 = match self {
            Dir::Up => -1,
            Dir::Down => 1,
            _ => 0,
        };
        Coord { x: c.x + dx, y: c.y + dy }
    }

    /// The reversal rule for directional input: a new direction is
    /// accepted unless it points straight back along the current axis of
    /// travel, which would reverse the snake into itself.
    pub open spec fn turn_spec(self, input: Dir) -> Dir {
        if input == self.opposite_spec() {
            self
        } else {
            input
        }
    }

    /// Apply a directional input under the reversal rule.
    pub fn turn(self, input: Dir) -> (r: Dir)
        ensures
            r == self.turn_spec(input),
    {
        if input == self.opposite() {
            self
        } else {
            input
        }
    }
}

/// No two entries of the sequence are the same cell.
pub open spec fn no_duplicates(s: Seq<Coord>) -> bool {
    forall|i: int, j: int| 0 <= i < s.len() && 0 <= j < s.len() && i != j ==> s[i] != s[j]
}

/// Every entry of the sequence lies on the grid.
pub open spec fn all_in_bounds(s: Seq<Coord>) -> bool {
    forall|i: int| 0 <= i < s.len() ==> in_bounds_spec(#[trigger] s[i])
}

/// Linear scan for a cell in a vector of cells.
pub fn contains_coord(v: &Vec<Coord>, p: Coord) -> (b: bool)
    ensures
        b == v@.contains(p),
{
    let mut i: usize = 0;
    while i < v.len()
        invariant
            0 <= i <= v@.len(),
            forall|k: int| 0 <= k < i ==> v@[k] != p,
        decreases v@.len() - i,
    {
        if v[i] == p {
            return true;
        }
        i = i + 1;
    }
    false
}

} // verus!
