use tis_cli::direction::Direction;
use tis_cli::instruction::Instruction;
use tis_cli::node::console_node::{ConsoleInNode, ConsoleOutNode};
use tis_cli::node::instruction_node::InstructionNode;
use tis_cli::node::number_console_node::{NumberConsoleInNode, NumberConsoleOutNode};
use tis_cli::node::{DirectionGiving, Output};
use tis_cli::number::Number;
use tis_cli::position::Position;
use tis_cli::register::{Register, RegisterOrNumber};
use tis_cli::tis::{Node, TIS};

fn num(n: i32) -> RegisterOrNumber {
    RegisterOrNumber::Number(Number::from_i32(n))
}

fn reg(r: Register) -> RegisterOrNumber {
    RegisterOrNumber::Register(r)
}

fn dir(d: Direction) -> Register {
    Register::Direction(d)
}

fn compute(x: i32, y: i32, code: Vec<Instruction>) -> Node {
    Node::Instruction(InstructionNode::new(Position::new(x, y), code))
}

fn grid(nodes: Vec<Node>) -> TIS {
    let mut tis = TIS::new();
    for n in nodes {
        assert!(tis.place(n));
    }
    tis
}

fn compute_at(tis: &TIS, i: usize) -> &InstructionNode {
    match tis.node(i) {
        Node::Instruction(n) => n,
        _ => panic!("not a compute node"),
    }
}

/// Runs `ticks` ticks, answering each request for input from `lines` and `numbers`.
fn run(tis: &mut TIS, ticks: usize, lines: &mut Vec<Vec<u8>>, numbers: &mut Vec<i32>) -> Vec<Output> {
    let mut out = Vec::new();
    for _ in 0..ticks {
        out.extend(tis.begin_tick());
        for i in tis.inputs_wanted() {
            match tis.node(i) {
                Node::ConsoleIn(_) => {
                    if !lines.is_empty() {
                        let line = lines.remove(0);
                        assert!(tis.supply_line(i, line));
                    }
                }
                Node::NumberConsoleIn(_) => {
                    if !numbers.is_empty() {
                        let n = numbers.remove(0);
                        assert!(tis.supply_number(i, Number::from_i32(n)));
                    }
                }
                _ => panic!("only readers want input"),
            }
        }
        out.extend(tis.finish_tick());
    }
    out
}

#[test]
fn echo_byte() {
    let mut tis = grid(vec![
        Node::ConsoleIn(ConsoleInNode::new(Position::new(0, 0))),
        compute(1, 0, vec![Instruction::Move(reg(dir(Direction::Left)), dir(Direction::Right))]),
        Node::ConsoleOut(ConsoleOutNode::new(Position::new(2, 0))),
    ]);
    let out = run(&mut tis, 3, &mut vec![b"A\n".to_vec()], &mut vec![]);
    assert_eq!(out, vec![Output::Byte(b'A')]);
    let c = compute_at(&tis, 1);
    assert_eq!(c.port.give, DirectionGiving::Idle);
    assert_eq!(c.port.giving_to, None);
    assert_eq!(c.port.give_value, None);
    // The newline of the line follows.
    let more = run(&mut tis, 6, &mut vec![], &mut vec![]);
    assert_eq!(more, vec![Output::Byte(b'\n')]);
}

#[test]
fn saturating_add() {
    let mut node = InstructionNode::new(
        Position::new(0, 0),
        vec![Instruction::Add(num(20)), Instruction::Add(num(20))],
    );
    node = node.with_accumulator(Number::from_i32(990));
    let mut tis = grid(vec![Node::Instruction(node)]);
    tis.tick();
    tis.tick();
    assert_eq!(compute_at(&tis, 0).accumulator.value(), 999);
}

#[test]
fn producer_consumer_over_any() {
    let mut tis = grid(vec![
        compute(0, 0, vec![Instruction::Move(num(5), Register::Any)]),
        compute(1, 0, vec![Instruction::Move(reg(dir(Direction::Left)), Register::Accumulator)]),
    ]);
    tis.tick();
    tis.tick();
    let a = compute_at(&tis, 0);
    let b = compute_at(&tis, 1);
    assert_eq!(a.last, Some(Direction::Right));
    assert_eq!(b.accumulator.value(), 5);
    assert_eq!(a.ptr, 1);
    assert_eq!(b.ptr, 1);
}

#[test]
fn deterministic_tie_break() {
    let mut tis = grid(vec![
        compute(0, 0, vec![Instruction::Move(num(7), Register::Any)]),
        compute(1, 0, vec![Instruction::Move(reg(dir(Direction::Left)), Register::Accumulator)]),
        compute(0, 1, vec![Instruction::Move(reg(dir(Direction::Down)), Register::Accumulator)]),
    ]);
    tis.tick();
    tis.tick();
    assert_eq!(compute_at(&tis, 2).accumulator.value(), 7);
    assert_eq!(compute_at(&tis, 1).accumulator.value(), 0);
    assert_eq!(compute_at(&tis, 0).last, Some(Direction::Up));
}

#[test]
fn deterministic_tie_break_any_order() {
    // The same layout placed in another order binds the same way.
    let mut tis = grid(vec![
        compute(0, 1, vec![Instruction::Move(reg(dir(Direction::Down)), Register::Accumulator)]),
        compute(1, 0, vec![Instruction::Move(reg(dir(Direction::Left)), Register::Accumulator)]),
        compute(0, 0, vec![Instruction::Move(num(7), Register::Any)]),
    ]);
    tis.tick();
    tis.tick();
    assert_eq!(compute_at(&tis, 0).accumulator.value(), 7);
    assert_eq!(compute_at(&tis, 1).accumulator.value(), 0);
    assert_eq!(compute_at(&tis, 2).last, Some(Direction::Up));
}

#[test]
fn jump_relative_clamp() {
    let mut tis = grid(vec![compute(
        0,
        0,
        vec![Instruction::JumpRelative(num(-5)), Instruction::Noop, Instruction::Noop],
    )]);
    tis.tick();
    assert_eq!(compute_at(&tis, 0).ptr, 0);
}

#[test]
fn jump_relative_past_end_wraps() {
    let mut tis = grid(vec![compute(
        0,
        0,
        vec![Instruction::JumpRelative(num(7)), Instruction::Add(num(1)), Instruction::Noop],
    )]);
    tis.tick();
    assert_eq!(compute_at(&tis, 0).ptr, 7);
    tis.tick();
    // The pointer wrapped to the jump, which jumps again.
    assert_eq!(compute_at(&tis, 0).ptr, 7);
    assert_eq!(compute_at(&tis, 0).accumulator.value(), 0);
}

#[test]
fn integer_echo() {
    let mut tis = grid(vec![
        Node::NumberConsoleIn(NumberConsoleInNode::new(Position::new(0, 0))),
        compute(1, 0, vec![Instruction::Move(reg(dir(Direction::Left)), dir(Direction::Right))]),
        Node::NumberConsoleOut(NumberConsoleOutNode::new(Position::new(2, 0))),
    ]);
    let out = run(&mut tis, 3, &mut vec![], &mut vec![42]);
    assert_eq!(out.len(), 1);
    match out[0] {
        Output::Number(n) => assert_eq!(n.to_string(), "42"),
        _ => panic!("expected a number"),
    }
}

#[test]
fn any_reader_meets_any_writer() {
    let mut tis = grid(vec![
        compute(0, 0, vec![Instruction::Move(reg(Register::Any), Register::Accumulator)]),
        compute(1, 0, vec![Instruction::Move(num(9), Register::Any)]),
    ]);
    tis.tick();
    tis.tick();
    assert_eq!(compute_at(&tis, 0).accumulator.value(), 9);
    assert_eq!(compute_at(&tis, 1).last, Some(Direction::Left));
    assert_eq!(compute_at(&tis, 1).port.give, DirectionGiving::Idle);
    assert_eq!(compute_at(&tis, 1).port.giving_to, None);
}

#[test]
fn blocked_read_keeps_pointer() {
    let mut tis = grid(vec![compute(
        0,
        0,
        vec![Instruction::Add(reg(dir(Direction::Up))), Instruction::Noop],
    )]);
    tis.tick();
    tis.tick();
    assert_eq!(compute_at(&tis, 0).ptr, 0);
}

#[test]
fn last_write_goes_to_last_direction() {
    // After a write through `any` to the right, `mov 4, last` writes right again.
    let mut tis = grid(vec![
        compute(0, 0, vec![Instruction::Move(num(3), Register::Any), Instruction::Move(num(4), Register::Last)]),
        compute(
            1,
            0,
            vec![
                Instruction::Move(reg(dir(Direction::Left)), Register::Accumulator),
                Instruction::Add(reg(dir(Direction::Left))),
            ],
        ),
    ]);
    for _ in 0..4 {
        tis.tick();
    }
    assert_eq!(compute_at(&tis, 1).accumulator.value(), 7);
    assert_eq!(compute_at(&tis, 0).last, Some(Direction::Right));
}

#[test]
fn byte_writer_drops_out_of_range() {
    let mut tis = grid(vec![
        compute(0, 0, vec![Instruction::Move(num(300), dir(Direction::Right)), Instruction::Move(num(66), dir(Direction::Right))]),
        Node::ConsoleOut(ConsoleOutNode::new(Position::new(1, 0))),
    ]);
    let out = run(&mut tis, 6, &mut vec![], &mut vec![]);
    assert_eq!(out, vec![Output::Byte(66)]);
}

#[test]
fn negative_numbers_reach_number_writer() {
    let mut tis = grid(vec![
        compute(0, 0, vec![Instruction::Move(num(-12), dir(Direction::Down))]),
        Node::NumberConsoleOut(NumberConsoleOutNode::new(Position::new(0, -1))),
    ]);
    let out = run(&mut tis, 2, &mut vec![], &mut vec![]);
    assert_eq!(out, vec![Output::Number(Number::from_i32(-12))]);
}

#[test]
fn placement_conflict_is_refused() {
    let mut tis = TIS::new();
    assert!(tis.place(compute(0, 0, vec![])));
    assert!(!tis.place(compute(0, 0, vec![Instruction::Noop])));
    assert_eq!(tis.len(), 1);
    assert_eq!(tis.node_at(Position::new(0, 0)), Some(0));
    assert_eq!(tis.node_at(Position::new(1, 0)), None);
}

#[test]
fn neighbours_link_both_ways() {
    let tis = grid(vec![compute(0, 0, vec![]), compute(1, 0, vec![]), compute(0, 1, vec![])]);
    let a = compute_at(&tis, 0);
    assert_eq!(a.links.right, Some(1));
    assert_eq!(a.links.up, Some(2));
    assert_eq!(a.links.left, None);
    assert_eq!(compute_at(&tis, 1).links.left, Some(0));
    assert_eq!(compute_at(&tis, 2).links.down, Some(0));
}
