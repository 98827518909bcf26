//! The four cardinal movement directions.

use crate::point::Point;
use vstd::prelude::*;

verus! {

/// A movement direction.  There is no diagonal movement.
#[derive(Clone, Copy, Debug, PartialEq, Eq, Structural)]
pub enum Direction {
    North,
    South,
    East,
    West,
}

/// The fixed unit displacement of a direction.
pub open spec fn dir_vector(d: Direction) -> Point {
    match d {
        Direction::North => (Point { row: -1i32, col: 0i32 }),
        Direction::South => (Point { row: 1i32, col: 0i32 }),
        Direction::East => (Point { row: 0i32, col: 1i32 }),
        Direction::West => (Point { row: 0i32, col: -1i32 }),
    }
}

/// The single letter naming a direction in the command protocol.
pub open spec fn dir_char(d: Direction) -> char {
    match d {
        Direction::North => 'n',
        Direction::South => 's',
        Direction::East => 'e',
        Direction::West => 'w',
    }
}

impl Direction {
    /// The unit displacement this direction stands for.
    pub fn into_point(self) -> (r: Point)
        ensures
            r == dir_vector(self),
    {
        match self {
            Direction::North => Point { row: -1, col: 0 },
            Direction::South => Point { row: 1, col: 0 },
            Direction::East => Point { row: 0, col: 1 },
            Direction::West => Point { row: 0, col: -1 },
        }
    }

    /// The protocol letter for this direction.
    pub fn letter(&self) -> (r: &'static str)
        ensures
            r@ == seq![dir_char(*self)],
    {
        proof {
            reveal_strlit("n");
            reveal_strlit("s");
            reveal_strlit("e");
            reveal_strlit("w");
        }
        match *self {
            Direction::North => "n",
            Direction::South => "s",
            Direction::East => "e",
            Direction::West => "w",
        }
    }
}

} // verus!
