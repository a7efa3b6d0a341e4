use vstd::prelude::*;

verus! {

/// A compass direction.
#[derive(Clone, Copy, Debug, PartialEq, Eq, Structural)]
pub enum Direction {
    North,
    South,
    East,
    West,
}

/// The direction taken after a move from `dir`: always east.
pub fn move_around(dir: &Direction) -> (r: Direction)
    ensures
        r == Direction::East,
{
    Direction::East
}

} // verus!
