use vstd::prelude::*;
use crate::direction::Direction;

verus! {

/// A cell of the grid.
#[derive(Clone, Copy, Debug, PartialEq, Eq, Structural, Hash)]
pub struct Position {
    pub x: i32,
    pub y: i32,
}

/// The coordinates one step from `(x, y)` in direction `d`: `Up` increases `y`,
/// `Right` increases `x`.
pub open spec fn step_from(x: int, y: int, d: Direction) -> (int, int) {
    match d {
        Direction::Up => (x, y + 1),
        Direction::Down => (x, y - 1),
        Direction::Left => (x - 1, y),
        Direction::Right => (x + 1, y),
    }
}

impl Position {
    pub open spec fn coords(self) -> (int, int) {
        (self.x as int, self.y as int)
    }

    /// Whether the neighbouring cell in direction `d` has representable coordinates.
    pub open spec fn has_neighbour(self, d: Direction) -> bool {
        let (x, y) = step_from(self.x as int, self.y as int, d);
        i32::MIN <= x <= i32::MAX && i32::MIN <= y <= i32::MAX
    }

    /// Whether `other` is the cell one step from `self` in direction `d`.
    pub open spec fn is_neighbour(self, d: Direction, other: Position) -> bool {
        other.coords() == step_from(self.x as int, self.y as int, d)
    }

    pub fn new(x: i32, y: i32) -> (r: Position)
        ensures
            r.x == x,
            r.y == y,
    {
        Position { x, y }
    }

    /// The cell one step away in direction `direction`.
    pub fn in_direction(&self, direction: Direction) -> (r: Position)
        requires
            self.has_neighbour(direction),
        ensures
            self.is_neighbour(direction, r),
    {
        match direction {
            Direction::Up => Position { x: self.x, y: self.y + 1 },
            Direction::Down => Position { x: self.x, y: self.y - 1 },
            Direction::Left => Position { x: self.x - 1, y: self.y },
            Direction::Right => Position { x: self.x + 1, y: self.y },
        }
    }

    /// The cell one step away in direction `direction`, or `None` at the edge of the
    /// coordinate range.
    pub fn checked_in_direction(&self, direction: Direction) -> (r: Option<Position>)
        ensures
            r is Some <==> self.has_neighbour(direction),
            r matches Some(p) ==> self.is_neighbour(direction, p),
    {
        let ok = match direction {
            Direction::Up => self.y < i32::MAX,
            Direction::Down => self.y > i32::MIN,
            Direction::Left => self.x > i32::MIN,
            Direction::Right => self.x < i32::MAX,
        };
        if ok {
            Some(self.in_direction(direction))
        } else {
            None
        }
    }
}

/// Stepping in a direction and then in the opposite one comes back to the start.
pub proof fn lemma_step_back(p: Position, d: Direction, q: Position)
    requires
        p.is_neighbour(d, q),
    ensures
        q.has_neighbour(crate::direction::opposite(d)),
        q.is_neighbour(crate::direction::opposite(d), p),
        p != q,
{
}

} // verus!
