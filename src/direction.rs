use vstd::prelude::*;

verus! {

/// One of the four neighbours of a grid cell, ordered `Up < Left < Right < Down`.
#[derive(Clone, Copy, Debug, PartialEq, Eq, Structural, PartialOrd, Ord, Hash)]
pub enum Direction {
    Up,
    Left,
    Right,
    Down,
}

/// The fixed order of directions, which breaks ties between contending neighbours.
pub open spec fn rank(d: Direction) -> nat {
    match d {
        Direction::Up => 0,
        Direction::Left => 1,
        Direction::Right => 2,
        Direction::Down => 3,
    }
}

/// The direction of rank `i`.
pub open spec fn direction_of_rank(i: nat) -> Direction {
    if i == 0 {
        Direction::Up
    } else if i == 1 {
        Direction::Left
    } else if i == 2 {
        Direction::Right
    } else {
        Direction::Down
    }
}

pub open spec fn opposite(d: Direction) -> Direction {
    match d {
        Direction::Up => Direction::Down,
        Direction::Left => Direction::Right,
        Direction::Right => Direction::Left,
        Direction::Down => Direction::Up,
    }
}

/// The smaller of two directions in the fixed order.
pub open spec fn smaller(a: Direction, b: Direction) -> Direction {
    if rank(a) <= rank(b) {
        a
    } else {
        b
    }
}

impl Direction {
    pub fn opposite(&self) -> (r: Direction)
        ensures
            r == opposite(*self),
    {
        match self {
            Direction::Up => Direction::Down,
            Direction::Left => Direction::Right,
            Direction::Right => Direction::Left,
            Direction::Down => Direction::Up,
        }
    }

    /// Position of the direction in the order `Up, Left, Right, Down`.
    pub fn rank(&self) -> (r: usize)
        ensures
            r as nat == rank(*self),
    {
        match self {
            Direction::Up => 0,
            Direction::Left => 1,
            Direction::Right => 2,
            Direction::Down => 3,
        }
    }

    /// The direction at position `i` of the order `Up, Left, Right, Down`.
    pub fn from_rank(i: usize) -> (r: Direction)
        requires
            i < 4,
        ensures
            r == direction_of_rank(i as nat),
            rank(r) == i,
    {
        if i == 0 {
            Direction::Up
        } else if i == 1 {
            Direction::Left
        } else if i == 2 {
            Direction::Right
        } else {
            Direction::Down
        }
    }

    /// The smaller of `self` and `other` in the order `Up < Left < Right < Down`.
    pub fn min(self, other: Direction) -> (r: Direction)
        ensures
            r == smaller(self, other),
    {
        if self.rank() <= other.rank() {
            self
        } else {
            other
        }
    }
}

/// Directions and ranks correspond one to one.
pub proof fn lemma_rank_bijective(d: Direction)
    ensures
        rank(d) < 4,
        direction_of_rank(rank(d)) == d,
        opposite(opposite(d)) == d,
{
}

} // verus!
