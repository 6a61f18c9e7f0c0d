//! The four cardinal directions of maze movement.

use vstd::prelude::*;

verus! {

/// A cardinal direction on the maze grid.
#[derive(Debug, Clone, Copy, PartialEq, Eq, Hash, Structural)]
pub enum Direction {
    Up,
    Down,
    Left,
    Right,
}

/// The opposite of a direction.
pub open spec fn spec_opposite(d: Direction) -> Direction {
    match d {
        Direction::Up => Direction::Down,
        Direction::Down => Direction::Up,
        Direction::Left => Direction::Right,
        Direction::Right => Direction::Left,
    }
}

/// Tie-break rank used when two moves are equally good: Up, Left, Down, Right.
pub open spec fn spec_priority(d: Direction) -> u8 {
    match d {
        Direction::Up => 0,
        Direction::Left => 1,
        Direction::Down => 2,
        Direction::Right => 3,
    }
}

impl Direction {
    /// All directions in their canonical enumeration order.
    pub open spec fn all() -> Seq<Direction> {
        seq![Direction::Up, Direction::Down, Direction::Left, Direction::Right]
    }

    /// The direction pointing the other way.
    pub fn opposite(self) -> (r: Direction)
        ensures
            r == spec_opposite(self),
    {
        match self {
            Direction::Up => Direction::Down,
            Direction::Down => Direction::Up,
            Direction::Left => Direction::Right,
            Direction::Right => Direction::Left,
        }
    }
}

/// Rank of a direction when breaking ties between equally distant moves.
pub fn direction_priority(dir: Direction) -> (r: u8)
    ensures
        r == spec_priority(dir),
{
    match dir {
        Direction::Up => 0,
        Direction::Left => 1,
        Direction::Down => 2,
        Direction::Right => 3,
    }
}

/// The unit step of a direction on the screen, as (dx, dy); y grows downwards.
pub open spec fn spec_unit(d: Direction) -> (int, int) {
    match d {
        Direction::Up => (0, -1),
        Direction::Down => (0, 1),
        Direction::Left => (-1, 0),
        Direction::Right => (1, 0),
    }
}

/// The dot product of a direction's unit step with a vector.
pub open spec fn spec_along(d: Direction, dx: int, dy: int) -> int {
    match d {
        Direction::Up => -dy,
        Direction::Down => dy,
        Direction::Left => -dx,
        Direction::Right => dx,
    }
}

/// The dot product is the one of the unit step.
pub proof fn lemma_along_is_dot(d: Direction, dx: int, dy: int)
    ensures
        spec_along(d, dx, dy) == spec_unit(d).0 * dx + spec_unit(d).1 * dy,
{
}

/// Reversing twice gives back the starting direction.
pub proof fn lemma_opposite_involutive(d: Direction)
    ensures
        spec_opposite(spec_opposite(d)) == d,
        spec_opposite(d) != d,
        spec_unit(spec_opposite(d)).0 == -spec_unit(d).0 && spec_unit(spec_opposite(d)).1 == -spec_unit(d).1,
{
}

} // verus!
