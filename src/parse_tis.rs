pub mod parse_code;
pub mod parse_settings;

use vstd::prelude::*;
use crate::instruction::Instruction;
use crate::node::console_node::{ConsoleInNode, ConsoleOutNode};
use crate::node::instruction_node::InstructionNode;
use crate::node::number_console_node::{NumberConsoleInNode, NumberConsoleOutNode};
use crate::number::{Number, clamp};
use crate::parse_tis::parse_settings::{Settings, SpecialNode};
use crate::tis::Node;

verus! {

/// A byte range of the source text.
#[derive(Clone, Copy, Debug, PartialEq, Eq, Structural)]
pub struct Span {
    pub start: usize,
    pub end: usize,
}

/// Whether two strings hold the same characters.
pub fn same_text(a: &str, b: &str) -> (r: bool)
    ensures
        r == (a@ == b@),
{
    let n = a.unicode_len();
    if n != b.unicode_len() {
        return false;
    }
    let mut i: usize = 0;
    while i < n
        invariant
            n == a@.len(),
            n == b@.len(),
            i <= n,
            forall|k: int| 0 <= k < i ==> a@[k] == b@[k],
        decreases n - i,
    {
        if a.get_char(i) != b.get_char(i) {
            return false;
        }
        i = i + 1;
    }
    assert(a@ =~= b@);
    true
}

/// Whether a string holds exactly the characters of `word`.
pub fn text_is(a: &str, word: &Vec<char>) -> (r: bool)
    ensures
        r == (a@ == word@),
{
    let n = a.unicode_len();
    if n != word.len() {
        return false;
    }
    let mut i: usize = 0;
    while i < n
        invariant
            n == a@.len(),
            n == word@.len(),
            i <= n,
            forall|k: int| 0 <= k < i ==> a@[k] == word@[k],
        decreases n - i,
    {
        if a.get_char(i) != word[i] {
            return false;
        }
        i = i + 1;
    }
    assert(a@ =~= word@);
    true
}

/// Why a node definition does not make a node.
#[derive(Clone, Copy, Debug, PartialEq, Eq, Structural)]
pub enum NodeError {
    /// An I/O node was given an initial accumulator.
    SpecialNodeWithAccumulator,
    /// An I/O node was given an initial backup.
    SpecialNodeWithBackup,
}

/// The node that a definition describes: an I/O node of the kind named, or a compute
/// node running `code` with the initial registers given (zero when absent, saturated
/// into range). The code of an I/O node is ignored.
pub fn make_node(settings: &Settings, code: Vec<Instruction>) -> (r: Result<Node, NodeError>)
    ensures
        settings.special_node is Some && settings.accumulator is Some ==> r == Err::<
            Node,
            NodeError,
        >(NodeError::SpecialNodeWithAccumulator),
        settings.special_node is Some && settings.accumulator is None && settings.backup is Some
            ==> r == Err::<Node, NodeError>(NodeError::SpecialNodeWithBackup),
        r is Ok <== (settings.special_node is None || (settings.accumulator is None
            && settings.backup is None)),
        r matches Ok(n) ==> n.is_fresh() && n.spec_position() == settings.position,
        r matches Ok(n) ==> match settings.special_node {
            Some(SpecialNode::ConsoleIn) => n is ConsoleIn,
            Some(SpecialNode::ConsoleOut) => n is ConsoleOut,
            Some(SpecialNode::NumberConsoleIn) => n is NumberConsoleIn,
            Some(SpecialNode::NumberConsoleOut) => n is NumberConsoleOut,
            None => match n {
                Node::Instruction(c) => {
                    &&& c.instructions@ == code@
                    &&& c.ptr == 0
                    &&& c.accumulator@ == match settings.accumulator {
                        Some(a) => clamp(a as int),
                        None => 0,
                    }
                    &&& c.backup@ == match settings.backup {
                        Some(b) => clamp(b as int),
                        None => 0,
                    }
                    &&& c.last is None
                    &&& c.port == crate::node::idle_port()
                },
                _ => false,
            },
        },
{
    let pos = settings.position;
    match settings.special_node {
        Some(kind) => {
            if settings.accumulator.is_some() {
                return Err(NodeError::SpecialNodeWithAccumulator);
            }
            if settings.backup.is_some() {
                return Err(NodeError::SpecialNodeWithBackup);
            }
            Ok(
                match kind {
                    SpecialNode::NumberConsoleOut => Node::NumberConsoleOut(
                        NumberConsoleOutNode::new(pos),
                    ),
                    SpecialNode::NumberConsoleIn => Node::NumberConsoleIn(NumberConsoleInNode::new(pos)),
                    SpecialNode::ConsoleOut => Node::ConsoleOut(ConsoleOutNode::new(pos)),
                    SpecialNode::ConsoleIn => Node::ConsoleIn(ConsoleInNode::new(pos)),
                },
            )
        },
        None => {
            let mut node = InstructionNode::new(pos, code);
            if let Some(a) = settings.accumulator {
                node = node.with_accumulator(Number::from_i32(a));
            }
            if let Some(b) = settings.backup {
                node = node.with_backup(Number::from_i32(b));
            }
            Ok(Node::Instruction(node))
        },
    }
}

} // verus!
