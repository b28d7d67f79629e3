pub mod console_node;
pub mod instruction_node;
pub mod number_console_node;

use vstd::prelude::*;
use crate::direction::{Direction, opposite, smaller, rank, direction_of_rank};
use crate::number::Number;

verus! {

/// The state of a node's outgoing port.
#[derive(Clone, Copy, Debug, PartialEq, Eq, Structural)]
pub enum DirectionGiving {
    /// Nothing is offered.
    Idle,
    /// A value is offered to any neighbour.
    Any,
    /// A value is offered to the neighbour in this direction only.
    Direction(Direction),
    /// The offer was claimed; the value waits in `give_value`.
    Given,
}

/// The single-value transfer slot of a node.
#[derive(Clone, Copy, Debug, PartialEq, Eq, Structural)]
pub struct Port {
    pub give: DirectionGiving,
    /// Direction, seen from this node, of the neighbour that claimed the offer.
    pub giving_to: Option<Direction>,
    pub give_value: Option<Number>,
}

/// A port that offers nothing.
pub open spec fn idle_port() -> Port {
    Port { give: DirectionGiving::Idle, giving_to: None, give_value: None }
}

/// The port after the neighbour in direction `from` (seen from the port's node)
/// registers interest in an `Any` offer: the smaller direction wins.
pub open spec fn with_interest(p: Port, from: Direction) -> Port {
    Port {
        giving_to: Some(
            match p.giving_to {
                None => from,
                Some(prev) => smaller(prev, from),
            },
        ),
        ..p
    }
}

/// The port after a neighbour reads it, the port's node lying in direction `toward`
/// from the reader.
pub open spec fn after_read(p: Port, toward: Direction) -> Port {
    match p.give {
        DirectionGiving::Idle => p,
        DirectionGiving::Any => with_interest(p, opposite(toward)),
        DirectionGiving::Direction(g) => if g == opposite(toward) {
            Port { giving_to: Some(opposite(toward)), ..p }
        } else {
            p
        },
        DirectionGiving::Given => Port { give_value: None, ..p },
    }
}

/// What a read of the port yields: the value, once the offer has been claimed.
pub open spec fn read_value(p: Port) -> Option<Number> {
    match p.give {
        DirectionGiving::Given => p.give_value,
        _ => None,
    }
}

/// Something a node prints while the grid ticks.
#[derive(Clone, Copy, Debug, PartialEq, Eq, Structural)]
pub enum Output {
    /// A raw byte, from a byte writer.
    Byte(u8),
    /// A decimal integer and a newline, from an integer writer.
    Number(Number),
}

/// Whether `p1` can follow `p0` through reads by neighbours: the offer stays as it was,
/// and an idle port gains no claim.
pub open spec fn port_evolved(p0: Port, p1: Port) -> bool {
    p1.give == p0.give && (p0.give == DirectionGiving::Idle ==> p1.giving_to == p0.giving_to)
}

/// Whether `nb1` can follow `nb0` through reads: the same neighbours, each port evolved.
pub open spec fn neighbors_evolved(nb0: Neighbors, nb1: Neighbors) -> bool {
    forall|d: Direction|
        match (#[trigger] nb0.get(d), nb1.get(d)) {
            (Some(p0), Some(p1)) => port_evolved(p0, p1),
            (None, None) => true,
            _ => false,
        }
}

pub proof fn lemma_after_read_evolved(p: Port, d: Direction)
    ensures
        port_evolved(p, after_read(p, d)),
{
}

/// Whether a read of the port from direction `toward` ends a walk over all neighbours
/// for the `Any` register: the port offers to the reader, or has been claimed.
pub open spec fn stops_walk(p: Port, toward: Direction) -> bool {
    match p.give {
        DirectionGiving::Idle => false,
        DirectionGiving::Any => true,
        DirectionGiving::Direction(g) => g == opposite(toward),
        DirectionGiving::Given => true,
    }
}

impl Port {
    pub fn new_idle() -> (r: Port)
        ensures
            r == idle_port(),
    {
        Port { give: DirectionGiving::Idle, giving_to: None, give_value: None }
    }

    /// Records that the neighbour in direction `direction` wants the offered value.
    pub fn set_giving_to(&mut self, direction: Direction)
        ensures
            *final(self) == (Port { giving_to: Some(direction), ..*old(self) }),
    {
        self.giving_to = Some(direction);
    }

    /// Reads this port as the neighbour for which this port's node lies in direction
    /// `toward`.
    pub fn read(&mut self, toward: Direction) -> (r: Option<Number>)
        ensures
            *final(self) == after_read(*old(self), toward),
            r == read_value(*old(self)),
    {
        let from = toward.opposite();
        match self.give {
            DirectionGiving::Idle => None,
            DirectionGiving::Any => {
                let chosen = match self.giving_to {
                    None => from,
                    Some(prev) => prev.min(from),
                };
                self.set_giving_to(chosen);
                None
            },
            DirectionGiving::Direction(g) => {
                if g == from {
                    self.set_giving_to(from);
                }
                None
            },
            DirectionGiving::Given => self.give_value.take(),
        }
    }
}

/// Indices, in the grid, of a node's neighbours.
#[derive(Clone, Copy, Debug, PartialEq, Eq, Structural)]
pub struct Links {
    pub up: Option<usize>,
    pub left: Option<usize>,
    pub right: Option<usize>,
    pub down: Option<usize>,
}

impl Links {
    pub open spec fn get(self, d: Direction) -> Option<usize> {
        match d {
            Direction::Up => self.up,
            Direction::Left => self.left,
            Direction::Right => self.right,
            Direction::Down => self.down,
        }
    }

    pub open spec fn set(self, d: Direction, i: usize) -> Links {
        match d {
            Direction::Up => Links { up: Some(i), ..self },
            Direction::Left => Links { left: Some(i), ..self },
            Direction::Right => Links { right: Some(i), ..self },
            Direction::Down => Links { down: Some(i), ..self },
        }
    }

    pub fn none() -> (r: Links)
        ensures
            forall|d: Direction| r.get(d) is None,
    {
        Links { up: None, left: None, right: None, down: None }
    }

    pub fn get_link(&self, d: Direction) -> (r: Option<usize>)
        ensures
            r == self.get(d),
    {
        match d {
            Direction::Up => self.up,
            Direction::Left => self.left,
            Direction::Right => self.right,
            Direction::Down => self.down,
        }
    }

    /// Links the neighbour in direction `dir` to the node at index `node`.
    pub fn set_dir(&mut self, dir: Direction, node: usize)
        ensures
            *final(self) == old(self).set(dir, node),
    {
        match dir {
            Direction::Up => self.up = Some(node),
            Direction::Left => self.left = Some(node),
            Direction::Right => self.right = Some(node),
            Direction::Down => self.down = Some(node),
        }
    }
}

/// The ports of a node's neighbours, as far as they exist.
#[derive(Clone, Copy, Debug, PartialEq, Eq, Structural)]
pub struct Neighbors {
    pub up: Option<Port>,
    pub left: Option<Port>,
    pub right: Option<Port>,
    pub down: Option<Port>,
}

impl Neighbors {
    pub open spec fn get(self, d: Direction) -> Option<Port> {
        match d {
            Direction::Up => self.up,
            Direction::Left => self.left,
            Direction::Right => self.right,
            Direction::Down => self.down,
        }
    }

    pub open spec fn set(self, d: Direction, p: Port) -> Neighbors {
        match d {
            Direction::Up => Neighbors { up: Some(p), ..self },
            Direction::Left => Neighbors { left: Some(p), ..self },
            Direction::Right => Neighbors { right: Some(p), ..self },
            Direction::Down => Neighbors { down: Some(p), ..self },
        }
    }

    /// The neighbourhood after reading the neighbour in direction `d`, if there is one.
    pub open spec fn after_read_at(self, d: Direction) -> Neighbors {
        match self.get(d) {
            Some(p) => self.set(d, after_read(p, d)),
            None => self,
        }
    }

    /// What reading the neighbour in direction `d` yields.
    pub open spec fn value_at(self, d: Direction) -> Option<Number> {
        match self.get(d) {
            Some(p) => read_value(p),
            None => None,
        }
    }

    /// Whether the neighbour in direction `d` ends a walk for the `Any` register.
    pub open spec fn stops_at(self, d: Direction) -> bool {
        match self.get(d) {
            Some(p) => stops_walk(p, d),
            None => false,
        }
    }

    /// Rank of the first direction, from rank `i` on, at which a walk for the `Any`
    /// register stops; 4 when there is none.
    pub open spec fn first_stop_from(self, i: nat) -> nat
        decreases 4 - i,
    {
        if i >= 4 {
            4
        } else if self.stops_at(direction_of_rank(i)) {
            i
        } else {
            self.first_stop_from(i + 1)
        }
    }

    pub open spec fn first_stop(self) -> nat {
        self.first_stop_from(0)
    }

    /// The neighbourhood after a read of the `Any` register.
    pub open spec fn after_any_read(self) -> Neighbors {
        if self.first_stop() < 4 {
            self.after_read_at(direction_of_rank(self.first_stop()))
        } else {
            self
        }
    }

    /// What a read of the `Any` register yields.
    pub open spec fn any_value(self) -> Option<Number> {
        if self.first_stop() < 4 {
            self.value_at(direction_of_rank(self.first_stop()))
        } else {
            None
        }
    }

    /// The neighbourhood after a node reads every neighbour in turn.
    pub open spec fn after_read_all(self) -> Neighbors {
        self.after_read_at(Direction::Up).after_read_at(Direction::Left).after_read_at(
            Direction::Right,
        ).after_read_at(Direction::Down)
    }

    pub proof fn lemma_reads_evolved(self)
        ensures
            neighbors_evolved(self, self),
            neighbors_evolved(self, self.after_any_read()),
            neighbors_evolved(self, self.after_read_all()),
            forall|d: Direction| neighbors_evolved(self, #[trigger] self.after_read_at(d)),
    {
        assert forall|d: Direction| neighbors_evolved(self, #[trigger] self.after_read_at(d)) by {
            self.lemma_read_at_evolved(d);
        }
        let a = self.after_read_at(Direction::Up);
        a.lemma_read_at_evolved(Direction::Left);
        let b = a.after_read_at(Direction::Left);
        b.lemma_read_at_evolved(Direction::Right);
        let c = b.after_read_at(Direction::Right);
        c.lemma_read_at_evolved(Direction::Down);
        self.lemma_read_at_evolved(Direction::Up);
        assert forall|d: Direction|
            match (#[trigger] self.get(d), self.after_read_all().get(d)) {
                (Some(p0), Some(p1)) => port_evolved(p0, p1),
                (None, None) => true,
                _ => false,
            } by {
            assert(match (self.get(d), a.get(d)) {
                (Some(p0), Some(p1)) => port_evolved(p0, p1),
                (None, None) => true,
                _ => false,
            });
            assert(match (a.get(d), b.get(d)) {
                (Some(p0), Some(p1)) => port_evolved(p0, p1),
                (None, None) => true,
                _ => false,
            });
            assert(match (b.get(d), c.get(d)) {
                (Some(p0), Some(p1)) => port_evolved(p0, p1),
                (None, None) => true,
                _ => false,
            });
        }
        if self.first_stop() < 4 {
            self.lemma_read_at_evolved(direction_of_rank(self.first_stop()));
        }
    }

    pub proof fn lemma_read_at_evolved(self, d: Direction)
        ensures
            neighbors_evolved(self, self.after_read_at(d)),
    {
        assert forall|e: Direction|
            match (#[trigger] self.get(e), self.after_read_at(d).get(e)) {
                (Some(p0), Some(p1)) => port_evolved(p0, p1),
                (None, None) => true,
                _ => false,
            } by {
            if let Some(p) = self.get(d) {
                lemma_after_read_evolved(p, d);
            }
        }
    }

    pub fn none() -> (r: Neighbors)
        ensures
            forall|d: Direction| r.get(d) is None,
    {
        Neighbors { up: None, left: None, right: None, down: None }
    }

    pub fn get_port(&self, d: Direction) -> (r: Option<Port>)
        ensures
            r == self.get(d),
    {
        match d {
            Direction::Up => self.up,
            Direction::Left => self.left,
            Direction::Right => self.right,
            Direction::Down => self.down,
        }
    }

    pub fn set_port(&mut self, d: Direction, p: Port)
        ensures
            *final(self) == old(self).set(d, p),
    {
        match d {
            Direction::Up => self.up = Some(p),
            Direction::Left => self.left = Some(p),
            Direction::Right => self.right = Some(p),
            Direction::Down => self.down = Some(p),
        }
    }

    /// Reads the neighbour in direction `d`; `None` when there is none or it has no
    /// value ready.
    pub fn read_at(&mut self, d: Direction) -> (r: Option<Number>)
        ensures
            *final(self) == old(self).after_read_at(d),
            r == old(self).value_at(d),
    {
        match self.get_port(d) {
            Some(p) => {
                let mut p = p;
                let r = p.read(d);
                self.set_port(d, p);
                r
            },
            None => None,
        }
    }

    /// Reads the `Any` register: walks the neighbours in the order
    /// `Up, Left, Right, Down` and reads the first that offers to this node or has a
    /// claimed value ready.
    pub fn read_any(&mut self) -> (r: Option<Number>)
        ensures
            *final(self) == old(self).after_any_read(),
            r == old(self).any_value(),
    {
        let ghost start = *self;
        let mut i: usize = 0;
        while i < 4
            invariant
                i <= 4,
                *self == start,
                start == *old(self),
                i == 4 ==> start.first_stop_from(i as nat) == 4,
                start.first_stop_from(0) == start.first_stop_from(i as nat),
            decreases 4 - i,
        {
            let d = Direction::from_rank(i);
            let stops = match self.get_port(d) {
                Some(p) => match p.give {
                    DirectionGiving::Idle => false,
                    DirectionGiving::Any => true,
                    DirectionGiving::Direction(g) => g == d.opposite(),
                    DirectionGiving::Given => true,
                },
                None => false,
            };
            assert(stops == start.stops_at(d));
            assert(start.first_stop_from(i as nat) == if start.stops_at(d) {
                i as nat
            } else {
                start.first_stop_from(i as nat + 1)
            });
            if stops {
                assert(direction_of_rank(start.first_stop()) == d);
                let r = self.read_at(d);
                return r;
            }
            i = i + 1;
        }
        None
    }
}

/// When two neighbours on different sides claim the same `Any` offer in one tick, the
/// offer goes to the one in the smaller direction, whichever reads first.
pub proof fn lemma_any_tie_break(p: Port, d1: Direction, d2: Direction)
    requires
        p.give == DirectionGiving::Any,
        p.giving_to is None,
    ensures
        after_read(after_read(p, d1), d2).giving_to == Some(smaller(opposite(d1), opposite(d2))),
        after_read(after_read(p, d1), d2) == after_read(after_read(p, d2), d1),
{
}

/// No neighbour before the first stop of the walk for the `Any` register stops it.
pub proof fn lemma_first_stop_before(nb: Neighbors, i: nat)
    requires
        i < nb.first_stop(),
    ensures
        !nb.stops_at(direction_of_rank(i)),
{
    assert(nb.first_stop() == nb.first_stop_from(0));
    assert(nb.first_stop_from(0) == if nb.stops_at(direction_of_rank(0)) { 0 } else { nb.first_stop_from(1) });
    assert(nb.first_stop_from(1) == if nb.stops_at(direction_of_rank(1)) { 1 } else { nb.first_stop_from(2) });
    assert(nb.first_stop_from(2) == if nb.stops_at(direction_of_rank(2)) { 2 } else { nb.first_stop_from(3) });
    assert(nb.first_stop_from(3) == if nb.stops_at(direction_of_rank(3)) { 3 } else { nb.first_stop_from(4) });
}

/// The walk for the `Any` register stops at rank `r` when the neighbour there stops it
/// and none before does.
pub proof fn lemma_first_stop_at(nb: Neighbors, r: nat)
    requires
        r < 4,
        nb.stops_at(direction_of_rank(r)),
        forall|i: nat| i < r ==> !nb.stops_at(#[trigger] direction_of_rank(i)),
    ensures
        nb.first_stop() == r,
{
    assert(nb.first_stop_from(0) == if nb.stops_at(direction_of_rank(0)) { 0 } else { nb.first_stop_from(1) });
    assert(nb.first_stop_from(1) == if nb.stops_at(direction_of_rank(1)) { 1 } else { nb.first_stop_from(2) });
    assert(nb.first_stop_from(2) == if nb.stops_at(direction_of_rank(2)) { 2 } else { nb.first_stop_from(3) });
    assert(nb.first_stop_from(3) == if nb.stops_at(direction_of_rank(3)) { 3 } else { nb.first_stop_from(4) });
    if r > 0 {
        assert(!nb.stops_at(direction_of_rank(0)));
    }
    if r > 1 {
        assert(!nb.stops_at(direction_of_rank(1)));
    }
    if r > 2 {
        assert(!nb.stops_at(direction_of_rank(2)));
    }
}

} // verus!
