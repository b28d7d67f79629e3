use vstd::prelude::*;
use crate::direction::Direction;
use crate::node::{DirectionGiving, Links, Neighbors, Output, Port};
use crate::number::Number;
use crate::position::Position;

verus! {

/// What the integer writer prints for a value read from a neighbour.
pub open spec fn number_of(v: Option<Number>) -> Seq<Output> {
    match v {
        Some(n) => seq![Output::Number(n)],
        None => Seq::empty(),
    }
}

/// A sink that prints, in decimal, the values its neighbours hand it.
#[derive(Debug)]
pub struct NumberConsoleOutNode {
    pub position: Position,
    pub links: Links,
}

impl NumberConsoleOutNode {
    pub fn new(position: Position) -> (r: NumberConsoleOutNode)
        ensures
            r.position == position,
            forall|d: Direction| r.links.get(d) is None,
    {
        NumberConsoleOutNode { position, links: Links::none() }
    }

    /// Reads every neighbour in the order `Up, Left, Right, Down`, registering on
    /// offers; returns the values taken, to be printed one per line.
    pub fn tick(&mut self, nb: &mut Neighbors) -> (r: Vec<Output>)
        ensures
            *final(self) == *old(self),
            *final(nb) == old(nb).after_read_all(),
            r@ == number_of(old(nb).value_at(Direction::Up)) + number_of(
                old(nb).value_at(Direction::Left),
            ) + number_of(old(nb).value_at(Direction::Right)) + number_of(
                old(nb).value_at(Direction::Down),
            ),
    {
        let mut out: Vec<Output> = Vec::new();
        let v = nb.read_at(Direction::Up);
        push_value(&mut out, v);
        let v = nb.read_at(Direction::Left);
        push_value(&mut out, v);
        let v = nb.read_at(Direction::Right);
        push_value(&mut out, v);
        let v = nb.read_at(Direction::Down);
        push_value(&mut out, v);
        out
    }
}

fn push_value(out: &mut Vec<Output>, v: Option<Number>)
    ensures
        final(out)@ == old(out)@ + number_of(v),
{
    if let Some(n) = v {
        out.push(Output::Number(n));
    }
    assert(final(out)@ =~= old(out)@ + number_of(v));
}

/// A source that offers the integers it is given, one per hand-over.
#[derive(Debug)]
pub struct NumberConsoleInNode {
    pub position: Position,
    pub links: Links,
    /// A value read ahead for the next hand-over.
    pub pending: Option<Number>,
    pub port: Port,
}

impl NumberConsoleInNode {
    /// An integer reader at `position`, offering to any neighbour, with nothing read.
    pub fn new(position: Position) -> (r: NumberConsoleInNode)
        ensures
            r.position == position,
            forall|d: Direction| r.links.get(d) is None,
            r.pending is None,
            r.port == (Port { give: DirectionGiving::Any, giving_to: None, give_value: None }),
    {
        NumberConsoleInNode {
            position,
            links: Links::none(),
            pending: None,
            port: Port { give: DirectionGiving::Any, giving_to: None, give_value: None },
        }
    }

    /// Whether a neighbour has claimed the offer and a value must be read before it can
    /// be handed over.
    pub open spec fn spec_wants_input(self) -> bool {
        self.port.giving_to is Some && self.port.give_value is None && self.pending is None
    }

    pub fn wants_input(&self) -> (r: bool)
        ensures
            r == self.spec_wants_input(),
    {
        self.port.giving_to.is_some() && self.port.give_value.is_none() && self.pending.is_none()
    }

    /// Provides the value for the next hand-over.
    pub fn supply_number(&mut self, value: Number)
        ensures
            *final(self) == (NumberConsoleInNode { pending: Some(value), ..*old(self) }),
    {
        self.pending = Some(value);
    }

    /// The node once a claimed offer is handed over: the value read ahead becomes the
    /// offered value, unless one is already waiting; with none at hand nothing changes.
    pub open spec fn handed(self) -> NumberConsoleInNode {
        if self.port.giving_to is None || self.spec_wants_input() {
            self
        } else if self.port.give_value is Some {
            NumberConsoleInNode { port: Port { give: DirectionGiving::Given, ..self.port }, ..self }
        } else {
            NumberConsoleInNode {
                port: Port {
                    give: DirectionGiving::Given,
                    give_value: self.pending,
                    ..self.port
                },
                pending: None,
                ..self
            }
        }
    }

    /// Hand-over phase: when a neighbour has claimed the offer and a value is at hand,
    /// marks the offer given and returns the receiver's direction.
    pub fn post_handle_give(&mut self) -> (r: Option<Direction>)
        ensures
            *final(self) == old(self).handed(),
            r == (if old(self).spec_wants_input() {
                None
            } else {
                old(self).port.giving_to
            }),
    {
        match self.port.giving_to {
            Some(t) => {
                if self.port.give_value.is_none() {
                    match self.pending.take() {
                        None => return None,
                        Some(n) => {
                            self.port.give_value = Some(n);
                        },
                    }
                }
                self.port.give = DirectionGiving::Given;
                Some(t)
            },
            None => None,
        }
    }

    /// The node after a completed transfer: it offers to any neighbour again.
    pub open spec fn released(self) -> NumberConsoleInNode {
        NumberConsoleInNode {
            port: Port { give: DirectionGiving::Any, giving_to: None, ..self.port },
            ..self
        }
    }

    pub fn post_post_handle_give(&mut self)
        ensures
            *final(self) == old(self).released(),
    {
        self.port.give = DirectionGiving::Any;
        self.port.giving_to = None;
    }
}

} // verus!
