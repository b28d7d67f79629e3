use vstd::prelude::*;
use crate::direction::Direction;
use crate::number::Number;

verus! {

/// A register operand.
#[derive(Clone, Copy, Debug, PartialEq, Eq, Structural)]
pub enum Register {
    /// The accumulator.
    Accumulator,
    /// Reads as zero; writes are discarded.
    Nil,
    /// The port towards a neighbour.
    Direction(Direction),
    /// The first neighbour that offers a value (read) or accepts one (write).
    Any,
    /// The direction most recently chosen by a write to `Any`.
    Last,
}

/// The source operand of an instruction: a register or a literal.
#[derive(Clone, Copy, Debug, PartialEq, Eq, Structural)]
pub enum RegisterOrNumber {
    Register(Register),
    Number(Number),
}

} // verus!
