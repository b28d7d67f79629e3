use vstd::prelude::*;
use crate::direction::Direction;
use crate::node::{DirectionGiving, Links, Neighbors, Output, Port};
use crate::number::{Number, lemma_spec_from, lemma_view_eq};
use crate::position::Position;

verus! {

broadcast use {lemma_spec_from, lemma_view_eq};

/// What the byte writer prints for a value read from a neighbour: the byte, when the
/// value is one.
pub open spec fn byte_of(v: Option<Number>) -> Seq<Output> {
    match v {
        Some(n) => if 0 <= n@ < 256 {
            seq![Output::Byte(n@ as u8)]
        } else {
            Seq::empty()
        },
        None => Seq::empty(),
    }
}

/// A sink that prints, as bytes, the values its neighbours hand it.
#[derive(Debug)]
pub struct ConsoleOutNode {
    pub position: Position,
    pub links: Links,
}

impl ConsoleOutNode {
    pub fn new(position: Position) -> (r: ConsoleOutNode)
        ensures
            r.position == position,
            forall|d: Direction| r.links.get(d) is None,
    {
        ConsoleOutNode { position, links: Links::none() }
    }

    /// Reads every neighbour in the order `Up, Left, Right, Down`, registering on
    /// offers; returns the bytes to print, one for each value taken that is in
    /// `0..256`.
    pub fn tick(&mut self, nb: &mut Neighbors) -> (r: Vec<Output>)
        ensures
            *final(self) == *old(self),
            *final(nb) == old(nb).after_read_all(),
            r@ == byte_of(old(nb).value_at(Direction::Up)) + byte_of(
                old(nb).value_at(Direction::Left),
            ) + byte_of(old(nb).value_at(Direction::Right)) + byte_of(
                old(nb).value_at(Direction::Down),
            ),
    {
        let mut out: Vec<Output> = Vec::new();
        let v = nb.read_at(Direction::Up);
        push_byte(&mut out, v);
        let v = nb.read_at(Direction::Left);
        push_byte(&mut out, v);
        let v = nb.read_at(Direction::Right);
        push_byte(&mut out, v);
        let v = nb.read_at(Direction::Down);
        push_byte(&mut out, v);
        out
    }
}

fn push_byte(out: &mut Vec<Output>, v: Option<Number>)
    ensures
        final(out)@ == old(out)@ + byte_of(v),
{
    if let Some(n) = v {
        let x = n.value();
        if 0 <= x && x < 256 {
            out.push(Output::Byte(x as u8));
        }
    }
    assert(final(out)@ =~= old(out)@ + byte_of(v));
}

/// A source that offers, one byte at a time, the lines it is given.
#[derive(Debug)]
pub struct ConsoleInNode {
    pub position: Position,
    pub links: Links,
    /// The current line of input.
    pub text_buffer: Vec<u8>,
    /// How many bytes of `text_buffer` have been handed out.
    pub consumed: usize,
    pub port: Port,
}

impl ConsoleInNode {
    /// The bytes not handed out yet, first one first.
    pub open spec fn pending(self) -> Seq<u8> {
        if self.consumed < self.text_buffer@.len() {
            self.text_buffer@.subrange(self.consumed as int, self.text_buffer@.len() as int)
        } else {
            Seq::empty()
        }
    }

    /// A byte reader at `position`, offering to any neighbour, with nothing buffered.
    pub fn new(position: Position) -> (r: ConsoleInNode)
        ensures
            r.position == position,
            forall|d: Direction| r.links.get(d) is None,
            r.pending().len() == 0,
            r.port == (Port { give: DirectionGiving::Any, giving_to: None, give_value: None }),
    {
        ConsoleInNode {
            position,
            links: Links::none(),
            text_buffer: Vec::new(),
            consumed: 0,
            port: Port { give: DirectionGiving::Any, giving_to: None, give_value: None },
        }
    }

    /// Whether a neighbour has claimed the offer and a byte must be read before it can
    /// be handed over.
    pub open spec fn spec_wants_input(self) -> bool {
        self.port.giving_to is Some && self.port.give_value is None && self.consumed
            >= self.text_buffer@.len()
    }

    pub fn wants_input(&self) -> (r: bool)
        ensures
            r == self.spec_wants_input(),
    {
        self.port.giving_to.is_some() && self.port.give_value.is_none() && self.consumed
            >= self.text_buffer.len()
    }

    /// Appends a line of input to the bytes still to hand out.
    pub fn supply_line(&mut self, line: Vec<u8>)
        ensures
            final(self).pending() == old(self).pending() + line@,
            final(self).position == old(self).position,
            final(self).links == old(self).links,
            final(self).port == old(self).port,
    {
        let mut rest: Vec<u8> = Vec::new();
        let len = self.text_buffer.len();
        let start = if self.consumed < len {
            self.consumed
        } else {
            len
        };
        let mut i: usize = start;
        while i < len
            invariant
                *self == *old(self),
                len == self.text_buffer@.len(),
                start <= i <= len,
                start == (if self.consumed < len { self.consumed } else { len }),
                rest@ =~= self.text_buffer@.subrange(start as int, i as int),
            decreases len - i,
        {
            rest.push(self.text_buffer[i]);
            i = i + 1;
        }
        let mut line = line;
        let ghost rest0 = rest@;
        rest.append(&mut line);
        assert(old(self).pending() =~= rest0);
        self.text_buffer = rest;
        self.consumed = 0;
        assert(self.pending() =~= self.text_buffer@);
    }

    /// The node once a claimed offer is handed over: the next byte becomes the value,
    /// unless one is already waiting; with no byte at hand, or no claim, nothing
    /// changes.
    pub open spec fn handed(self) -> ConsoleInNode {
        if self.port.giving_to is None || self.spec_wants_input() {
            self
        } else if self.port.give_value is Some {
            ConsoleInNode { port: Port { give: DirectionGiving::Given, ..self.port }, ..self }
        } else {
            ConsoleInNode {
                port: Port {
                    give: DirectionGiving::Given,
                    give_value: Some(Number::spec_from(self.text_buffer@[self.consumed as int] as int)),
                    ..self.port
                },
                consumed: (self.consumed + 1) as usize,
                ..self
            }
        }
    }

    /// Hand-over phase: when a neighbour has claimed the offer and a byte is at hand,
    /// marks the offer given and returns the receiver's direction.
    pub fn post_handle_give(&mut self) -> (r: Option<Direction>)
        ensures
            *final(self) == old(self).handed(),
            r == (if old(self).spec_wants_input() {
                None
            } else {
                old(self).port.giving_to
            }),
    {
        match self.port.giving_to {
            Some(t) => {
                if self.port.give_value.is_none() {
                    if self.consumed >= self.text_buffer.len() {
                        return None;
                    }
                    let b = self.text_buffer[self.consumed];
                    let n = Number::from_u8(b);
                    assert(n@ == Number::spec_from(b as int)@);
                    self.port.give_value = Some(n);
                    self.consumed = self.consumed + 1;
                }
                self.port.give = DirectionGiving::Given;
                Some(t)
            },
            None => None,
        }
    }

    /// The node after a completed transfer: it offers to any neighbour again.
    pub open spec fn released(self) -> ConsoleInNode {
        ConsoleInNode {
            port: Port { give: DirectionGiving::Any, giving_to: None, ..self.port },
            ..self
        }
    }

    pub fn post_post_handle_give(&mut self)
        ensures
            *final(self) == old(self).released(),
    {
        self.port.give = DirectionGiving::Any;
        self.port.giving_to = None;
    }
}

} // verus!
