use vstd::prelude::*;
use crate::direction::Direction;
use crate::instruction::Instruction;
use crate::node::{DirectionGiving, Links, Neighbors, Port, neighbors_evolved};
use crate::number::{Number, clamp, lemma_spec_from, lemma_view_eq};
use crate::position::Position;
use crate::register::{Register, RegisterOrNumber};

verus! {

broadcast use {lemma_spec_from, lemma_view_eq};

/// A node that runs a program with an accumulator and a backup register.
#[derive(Debug)]
pub struct InstructionNode {
    pub position: Position,
    pub links: Links,
    pub instructions: Vec<Instruction>,
    /// Index of the next instruction; wraps to 0 when past the end.
    pub ptr: usize,
    pub accumulator: Number,
    pub backup: Number,
    /// Direction chosen by the most recent write to `Any`.
    pub last: Option<Direction>,
    pub port: Port,
}

/// Where `jro` sends the program pointer: `t`, but never below zero.
pub open spec fn jump_target(t: int) -> usize {
    if t < 0 {
        0
    } else if t > usize::MAX {
        usize::MAX
    } else {
        t as usize
    }
}

impl InstructionNode {
    /// Whether the node executes an instruction this tick: it has a program and is not
    /// in the middle of a transfer.
    pub open spec fn can_step(self) -> bool {
        self.instructions.len() > 0 && self.port.give == DirectionGiving::Idle
    }

    /// Index of the instruction executed next.
    pub open spec fn fetch_index(self) -> int {
        if self.ptr >= self.instructions.len() {
            0
        } else {
            self.ptr as int
        }
    }

    /// What reading `register` yields, and the neighbourhood afterwards.
    pub open spec fn register_read(self, register: Register, nb: Neighbors) -> (Option<
        Number,
    >, Neighbors) {
        match register {
            Register::Accumulator => (Some(self.accumulator), nb),
            Register::Nil => (Some(Number::spec_from(0)), nb),
            Register::Direction(d) => (nb.value_at(d), nb.after_read_at(d)),
            Register::Any => (nb.any_value(), nb.after_any_read()),
            Register::Last => match self.last {
                None => (Some(Number::spec_from(0)), nb),
                Some(d) => (nb.value_at(d), nb.after_read_at(d)),
            },
        }
    }

    /// What evaluating a source operand yields, and the neighbourhood afterwards.
    pub open spec fn source_read(self, source: RegisterOrNumber, nb: Neighbors) -> (Option<
        Number,
    >, Neighbors) {
        match source {
            RegisterOrNumber::Number(n) => (Some(n), nb),
            RegisterOrNumber::Register(r) => self.register_read(r, nb),
        }
    }

    /// Whether writing to `register` stages a value on the port.
    pub open spec fn writes_port(self, register: Register) -> bool {
        match register {
            Register::Direction(_) => true,
            Register::Any => true,
            Register::Last => self.last is Some,
            _ => false,
        }
    }

    /// The node after storing `value` in `register` (the program pointer aside).
    pub open spec fn stored(self, register: Register, value: Number) -> InstructionNode {
        if self.writes_port(register) {
            InstructionNode { port: Port { give_value: Some(value), ..self.port }, ..self }
        } else if register == Register::Accumulator {
            InstructionNode { accumulator: value, ..self }
        } else {
            self
        }
    }

    pub open spec fn with_ptr(self, ptr: int) -> InstructionNode {
        InstructionNode { ptr: ptr as usize, ..self }
    }

    /// One step of the program, with the ports of the neighbours: the node and the
    /// neighbourhood afterwards. A read that finds no value leaves the pointer on the
    /// instruction; a staged port write leaves it there until the write is committed.
    pub open spec fn step(self, nb: Neighbors) -> (InstructionNode, Neighbors) {
        if !self.can_step() {
            (self, nb)
        } else {
            let pc = self.fetch_index();
            let acc = self.accumulator;
            match self.instructions@[pc] {
                Instruction::Noop => (self.with_ptr(pc + 1), nb),
                Instruction::Move(source, destination) => {
                    let (v, nb2) = self.source_read(source, nb);
                    match v {
                        None => (self.with_ptr(pc), nb2),
                        Some(n) => if self.writes_port(destination) {
                            (self.stored(destination, n).with_ptr(pc), nb2)
                        } else {
                            (self.stored(destination, n).with_ptr(pc + 1), nb2)
                        },
                    }
                },
                Instruction::Swap => (
                    InstructionNode { accumulator: self.backup, backup: acc, ..self }.with_ptr(
                        pc + 1,
                    ),
                    nb,
                ),
                Instruction::Save => (
                    InstructionNode { backup: acc, ..self }.with_ptr(pc + 1),
                    nb,
                ),
                Instruction::Add(source) => {
                    let (v, nb2) = self.source_read(source, nb);
                    match v {
                        None => (self.with_ptr(pc), nb2),
                        Some(n) => (
                            InstructionNode {
                                accumulator: Number::spec_from(acc@ + n@),
                                ..self
                            }.with_ptr(pc + 1),
                            nb2,
                        ),
                    }
                },
                Instruction::Subtract(source) => {
                    let (v, nb2) = self.source_read(source, nb);
                    match v {
                        None => (self.with_ptr(pc), nb2),
                        Some(n) => (
                            InstructionNode {
                                accumulator: Number::spec_from(acc@ - n@),
                                ..self
                            }.with_ptr(pc + 1),
                            nb2,
                        ),
                    }
                },
                Instruction::Negate => (
                    InstructionNode { accumulator: Number::spec_from(-acc@), ..self }.with_ptr(
                        pc + 1,
                    ),
                    nb,
                ),
                Instruction::Jump(i) => (self.with_ptr(i as int), nb),
                Instruction::JumpEqualZero(i) => (
                    self.with_ptr(if acc@ == 0 { i as int } else { pc + 1 }),
                    nb,
                ),
                Instruction::JumpNotZero(i) => (
                    self.with_ptr(if acc@ != 0 { i as int } else { pc + 1 }),
                    nb,
                ),
                Instruction::JumpGreaterThanZero(i) => (
                    self.with_ptr(if acc@ > 0 { i as int } else { pc + 1 }),
                    nb,
                ),
                Instruction::JumpLessThanZero(i) => (
                    self.with_ptr(if acc@ < 0 { i as int } else { pc + 1 }),
                    nb,
                ),
                Instruction::JumpRelative(source) => {
                    let (v, nb2) = self.source_read(source, nb);
                    match v {
                        None => (self.with_ptr(pc), nb2),
                        Some(n) => (self.with_ptr(jump_target(pc + n@) as int), nb2),
                    }
                },
            }
        }
    }

    /// The node after the commit phase: a staged write by the `Move` under the pointer
    /// becomes an offer, and the pointer moves past it.
    pub open spec fn committed(self) -> InstructionNode {
        if self.port.give == DirectionGiving::Idle && self.port.give_value is Some && self.ptr
            < self.instructions.len() {
            match self.instructions@[self.ptr as int] {
                Instruction::Move(_, Register::Direction(d)) => InstructionNode {
                    port: Port { give: DirectionGiving::Direction(d), ..self.port },
                    ..self
                }.with_ptr(self.ptr + 1),
                Instruction::Move(_, Register::Any) => InstructionNode {
                    port: Port { give: DirectionGiving::Any, ..self.port },
                    ..self
                }.with_ptr(self.ptr + 1),
                Instruction::Move(_, Register::Last) => match self.last {
                    Some(l) => InstructionNode {
                        port: Port { give: DirectionGiving::Direction(l), ..self.port },
                        ..self
                    }.with_ptr(self.ptr + 1),
                    None => self,
                },
                _ => self,
            }
        } else {
            self
        }
    }

    /// The node once a claimed offer is handed over: `last` records the receiver of an
    /// `Any` offer.
    pub open spec fn handed(self) -> InstructionNode {
        match self.port.giving_to {
            Some(t) => InstructionNode {
                last: if self.port.give == DirectionGiving::Any {
                    Some(t)
                } else {
                    self.last
                },
                port: Port { give: DirectionGiving::Given, ..self.port },
                ..self
            },
            None => self,
        }
    }

    /// The node after a completed transfer: the port is free again.
    pub open spec fn released(self) -> InstructionNode {
        InstructionNode {
            port: Port { give: DirectionGiving::Idle, giving_to: None, ..self.port },
            ..self
        }
    }

    /// A step changes neither the node's place, links and program nor its offer, and
    /// only reads the neighbours' ports.
    #[verifier::rlimit(40)]
    pub proof fn lemma_step_frame(self, nb: Neighbors)
        ensures
            self.step(nb).0.position == self.position,
            self.step(nb).0.links == self.links,
            self.step(nb).0.instructions == self.instructions,
            self.step(nb).0.port.give == self.port.give,
            self.step(nb).0.port.giving_to == self.port.giving_to,
            neighbors_evolved(nb, self.step(nb).1),
    {
        nb.lemma_reads_evolved();
    }

    /// A node at `position` that runs `instructions` from the first one, with both
    /// registers zero and nothing offered.
    pub fn new(position: Position, instructions: Vec<Instruction>) -> (r: InstructionNode)
        ensures
            r.position == position,
            r.instructions@ == instructions@,
            r.ptr == 0,
            r.accumulator@ == 0,
            r.backup@ == 0,
            r.last is None,
            r.port == crate::node::idle_port(),
            forall|d: Direction| r.links.get(d) is None,
    {
        InstructionNode {
            position,
            links: Links::none(),
            instructions,
            ptr: 0,
            accumulator: Number::new(),
            backup: Number::new(),
            last: None,
            port: Port::new_idle(),
        }
    }

    pub fn with_accumulator(self, accumulator: Number) -> (r: InstructionNode)
        ensures
            r == (InstructionNode { accumulator, ..self }),
    {
        let mut s = self;
        s.accumulator = accumulator;
        s
    }

    pub fn with_backup(self, backup: Number) -> (r: InstructionNode)
        ensures
            r == (InstructionNode { backup, ..self }),
    {
        let mut s = self;
        s.backup = backup;
        s
    }

    fn zero() -> (r: Number)
        ensures
            r == Number::spec_from(0),
    {
        let z = Number::zero();
        assert(z@ == Number::spec_from(0)@);
        z
    }

    /// Reads `register`, taking a value from a neighbour's port when the register is a
    /// port; `None` when no value is ready.
    fn get_value(&self, register: Register, nb: &mut Neighbors) -> (r: Option<Number>)
        ensures
            (r, *final(nb)) == self.register_read(register, *old(nb)),
    {
        match register {
            Register::Accumulator => Some(self.accumulator),
            Register::Nil => Some(Self::zero()),
            Register::Direction(d) => nb.read_at(d),
            Register::Any => nb.read_any(),
            Register::Last => match self.last {
                None => Some(Self::zero()),
                Some(d) => nb.read_at(d),
            },
        }
    }

    /// Evaluates a source operand; `None` when it is a port with no value ready.
    pub fn get_from_register_or_number(
        &self,
        register_or_number: RegisterOrNumber,
        nb: &mut Neighbors,
    ) -> (r: Option<Number>)
        ensures
            (r, *final(nb)) == self.source_read(register_or_number, *old(nb)),
    {
        match register_or_number {
            RegisterOrNumber::Register(register) => self.get_value(register, nb),
            RegisterOrNumber::Number(number) => Some(number),
        }
    }

    /// Stores `value` in `register`; returns whether the value was staged on the port
    /// (and the pointer must wait for the commit phase).
    pub fn set_value(&mut self, register: Register, value: Number) -> (r: bool)
        ensures
            r == old(self).writes_port(register),
            *final(self) == old(self).stored(register, value),
    {
        match register {
            Register::Accumulator => {
                self.accumulator = value;
                false
            },
            Register::Nil => false,
            Register::Direction(_) | Register::Any => {
                self.port.give_value = Some(value);
                true
            },
            Register::Last => {
                if self.last.is_some() {
                    self.port.give_value = Some(value);
                    true
                } else {
                    false
                }
            },
        }
    }

    pub fn position(&self) -> (r: Position)
        ensures
            r == self.position,
    {
        self.position
    }

    pub fn give(&self) -> (r: DirectionGiving)
        ensures
            r == self.port.give,
    {
        self.port.give
    }

    pub fn giving_to(&self) -> (r: Option<Direction>)
        ensures
            r == self.port.giving_to,
    {
        self.port.giving_to
    }

    pub fn set_giving_to(&mut self, direction: Direction)
        ensures
            *final(self) == (InstructionNode {
                port: Port { giving_to: Some(direction), ..old(self).port },
                ..*old(self)
            }),
    {
        self.port.set_giving_to(direction);
    }

    /// Executes one instruction, reading and registering on the neighbours' ports in
    /// `nb`.
    pub fn tick(&mut self, nb: &mut Neighbors)
        ensures
            (*final(self), *final(nb)) == old(self).step(*old(nb)),
    {
        if self.instructions.len() == 0 || self.port.give != DirectionGiving::Idle {
            return;
        }
        if self.ptr >= self.instructions.len() {
            self.ptr = 0;
        }
        let pc = self.ptr;
        let instruction = self.instructions[pc];
        match instruction {
            Instruction::Noop => {
                self.ptr = pc + 1;
            },
            Instruction::Move(source, destination) => {
                let value = self.get_from_register_or_number(source, nb);
                match value {
                    None => {},
                    Some(v) => {
                        let staged = self.set_value(destination, v);
                        if !staged {
                            self.ptr = pc + 1;
                        }
                    },
                }
            },
            Instruction::Swap => {
                let acc = self.accumulator;
                self.accumulator = self.backup;
                self.backup = acc;
                self.ptr = pc + 1;
            },
            Instruction::Save => {
                self.backup = self.accumulator;
                self.ptr = pc + 1;
            },
            Instruction::Add(source) => {
                let value = self.get_from_register_or_number(source, nb);
                if let Some(v) = value {
                    self.accumulator.add_assign(v);
                    self.ptr = pc + 1;
                }
            },
            Instruction::Subtract(source) => {
                let value = self.get_from_register_or_number(source, nb);
                if let Some(v) = value {
                    self.accumulator.sub_assign(v);
                    self.ptr = pc + 1;
                }
            },
            Instruction::Negate => {
                self.accumulator = self.accumulator.neg();
                self.ptr = pc + 1;
            },
            Instruction::Jump(i) => {
                self.ptr = i;
            },
            Instruction::JumpEqualZero(i) => {
                self.ptr = if self.accumulator.is_zero() { i } else { pc + 1 };
            },
            Instruction::JumpNotZero(i) => {
                self.ptr = if !self.accumulator.is_zero() { i } else { pc + 1 };
            },
            Instruction::JumpGreaterThanZero(i) => {
                self.ptr = if self.accumulator.value() > 0 { i } else { pc + 1 };
            },
            Instruction::JumpLessThanZero(i) => {
                self.ptr = if self.accumulator.value() < 0 { i } else { pc + 1 };
            },
            Instruction::JumpRelative(source) => {
                let value = self.get_from_register_or_number(source, nb);
                if let Some(v) = value {
                    let offset = v.value();
                    self.ptr = if offset < 0 {
                        let back = (-offset) as usize;
                        if pc < back {
                            0
                        } else {
                            pc - back
                        }
                    } else {
                        pc.saturating_add(offset as usize)
                    };
                }
            },
        }
    }

    /// Commit phase: turns a staged write into an offer (see [`Self::committed`]).
    pub fn handle_give(&mut self)
        ensures
            *final(self) == old(self).committed(),
    {
        if self.port.give == DirectionGiving::Idle && self.port.give_value.is_some() && self.ptr
            < self.instructions.len() {
            if let Instruction::Move(_, register) = self.instructions[self.ptr] {
                match register {
                    Register::Direction(d) => {
                        self.port.give = DirectionGiving::Direction(d);
                        self.ptr = self.ptr + 1;
                    },
                    Register::Any => {
                        self.port.give = DirectionGiving::Any;
                        self.ptr = self.ptr + 1;
                    },
                    Register::Last => {
                        if let Some(l) = self.last {
                            self.port.give = DirectionGiving::Direction(l);
                            self.ptr = self.ptr + 1;
                        }
                    },
                    _ => {},
                }
            }
        }
    }

    /// Hand-over phase: when a receiver has claimed the offer, marks it given and
    /// returns the receiver's direction.
    pub fn post_handle_give(&mut self) -> (r: Option<Direction>)
        ensures
            *final(self) == old(self).handed(),
            r == old(self).port.giving_to,
    {
        match self.port.giving_to {
            Some(t) => {
                if self.port.give == DirectionGiving::Any {
                    self.last = Some(t);
                }
                self.port.give = DirectionGiving::Given;
                Some(t)
            },
            None => None,
        }
    }

    /// Frees the port once the receiver has had its chance to take the value.
    pub fn post_post_handle_give(&mut self)
        ensures
            *final(self) == old(self).released(),
    {
        self.port.give = DirectionGiving::Idle;
        self.port.giving_to = None;
    }
}

/// Moving to `nil` changes nothing but the pointer (and what reading the source does to
/// the neighbours); the pointer stays when the source has no value ready.
pub proof fn lemma_move_to_nil(n: InstructionNode, nb: Neighbors, source: RegisterOrNumber)
    requires
        n.can_step(),
        n.instructions@[n.fetch_index()] == Instruction::Move(source, Register::Nil),
    ensures
        n.step(nb).0 == n.with_ptr(
            if n.source_read(source, nb).0 is Some {
                n.fetch_index() + 1
            } else {
                n.fetch_index()
            },
        ),
        n.step(nb).1 == n.source_read(source, nb).1,
{
}

/// Moving from `nil` stores zero in the destination, touching no neighbour; a port
/// destination stages the zero and keeps the pointer until the commit phase.
pub proof fn lemma_move_from_nil(n: InstructionNode, nb: Neighbors, destination: Register)
    requires
        n.can_step(),
        n.instructions@[n.fetch_index()] == Instruction::Move(
            RegisterOrNumber::Register(Register::Nil),
            destination,
        ),
    ensures
        n.step(nb).1 == nb,
        n.step(nb).0 == n.stored(destination, Number::spec_from(0)).with_ptr(
            if n.writes_port(destination) {
                n.fetch_index()
            } else {
                n.fetch_index() + 1
            },
        ),
        destination == Register::Accumulator ==> n.step(nb).0.accumulator@ == 0,
        n.writes_port(destination) ==> (n.step(nb).0.port.give_value matches Some(z) && z@ == 0),
{
}

/// Two `swp` in a row give back both registers.
pub proof fn lemma_swap_twice(n: InstructionNode, nb: Neighbors)
    requires
        n.can_step(),
        n.instructions@[n.fetch_index()] == Instruction::Swap,
        n.step(nb).0.instructions@[n.step(nb).0.fetch_index()] == Instruction::Swap,
    ensures
        n.step(nb).0.step(nb).0.accumulator == n.accumulator,
        n.step(nb).0.step(nb).0.backup == n.backup,
        n.step(nb).0.step(nb).1 == nb,
{
}

/// Two `sav` in a row leave the backup equal to the accumulator, which is unchanged.
pub proof fn lemma_save_twice(n: InstructionNode, nb: Neighbors)
    requires
        n.can_step(),
        n.instructions@[n.fetch_index()] == Instruction::Save,
        n.step(nb).0.instructions@[n.step(nb).0.fetch_index()] == Instruction::Save,
    ensures
        n.step(nb).0.step(nb).0.accumulator == n.accumulator,
        n.step(nb).0.step(nb).0.backup == n.accumulator,
{
}

/// A transfer between a node `a` reading `any` and a neighbour `b` offering on `Any`
/// completes within one tick, when `b` is the first neighbour, in the order
/// `Up, Left, Right, Down`, at which `a`'s walk stops and nobody else claims `b`: in
/// phase A, `a` claims `b`'s offer; in phase C, `b` records the direction of `a` as
/// `last` and marks its offer given, `a` steps again and takes the value, and `b`'s
/// port is freed.
pub proof fn lemma_any_transfer(a: InstructionNode, nb: Neighbors, b: InstructionNode, d: Direction, v: Number)
    requires
        a.can_step(),
        a.ptr < a.instructions.len(),
        a.instructions@[a.ptr as int] == Instruction::Move(
            RegisterOrNumber::Register(Register::Any),
            Register::Accumulator,
        ),
        nb.get(d) == Some(b.port),
        b.port == (Port { give: DirectionGiving::Any, giving_to: None, give_value: Some(v) }),
        nb.first_stop() == crate::direction::rank(d),
    ensures
        ({
            let (a1, nb1) = a.step(nb);
            let b1 = InstructionNode { port: nb1.get(d).unwrap(), ..b }.handed();
            let (a2, nb2) = a1.step(nb1.set(d, b1.port));
            let b2 = InstructionNode { port: nb2.get(d).unwrap(), ..b1 }.released();
            &&& a1.ptr == a.ptr
            &&& b1.port.giving_to == Some(crate::direction::opposite(d))
            &&& b1.last == Some(crate::direction::opposite(d))
            &&& b1.port.give == DirectionGiving::Given
            &&& a2.accumulator == v
            &&& a2.ptr == a.ptr + 1
            &&& b2.port == (Port { give: DirectionGiving::Idle, giving_to: None, give_value: None })
            &&& b2.last == Some(crate::direction::opposite(d))
        }),
{
    let (a1, nb1) = a.step(nb);
    crate::direction::lemma_rank_bijective(d);
    assert(nb.any_value() == None::<Number>);
    assert(nb1 == nb.after_read_at(d));
    let b1 = InstructionNode { port: nb1.get(d).unwrap(), ..b }.handed();
    let nb1b = nb1.set(d, b1.port);
    assert forall|e: Direction| e != d implies #[trigger] nb1b.get(e) == nb.get(e) by {}
    assert(nb1b.stops_at(d));
    assert(nb1b.first_stop() == nb.first_stop()) by {
        assert forall|i: nat| i < crate::direction::rank(d) implies !nb1b.stops_at(
            #[trigger] crate::direction::direction_of_rank(i),
        ) by {
            assert(!nb.stops_at(crate::direction::direction_of_rank(i))) by {
                crate::node::lemma_first_stop_before(nb, i);
            }
            assert(crate::direction::direction_of_rank(i) != d);
        }
        crate::node::lemma_first_stop_at(nb1b, crate::direction::rank(d));
    }
}

} // verus!
