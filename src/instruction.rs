use vstd::prelude::*;
use crate::register::{Register, RegisterOrNumber};

verus! {

/// One instruction of a compute node; jump targets are instruction indices.
#[derive(Clone, Copy, Debug, PartialEq, Eq, Structural)]
pub enum Instruction {
    Noop,
    Move(RegisterOrNumber, Register),
    Swap,
    Save,
    Add(RegisterOrNumber),
    Subtract(RegisterOrNumber),
    Negate,
    Jump(usize),
    JumpEqualZero(usize),
    JumpNotZero(usize),
    JumpGreaterThanZero(usize),
    JumpLessThanZero(usize),
    JumpRelative(RegisterOrNumber),
}

} // verus!
