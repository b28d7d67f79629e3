use tis_cli::direction::Direction;
use tis_cli::instruction::Instruction;
use tis_cli::node::instruction_node::InstructionNode;
use tis_cli::node::{DirectionGiving, Neighbors, Port};
use tis_cli::number::Number;
use tis_cli::position::Position;
use tis_cli::register::{Register, RegisterOrNumber};

fn node(code: Vec<Instruction>, acc: i32, bak: i32) -> InstructionNode {
    InstructionNode::new(Position::new(0, 0), code)
        .with_accumulator(Number::from_i32(acc))
        .with_backup(Number::from_i32(bak))
}

#[test]
fn move_to_nil_only_advances() {
    let mut n = node(vec![Instruction::Move(RegisterOrNumber::Number(Number::from_i32(5)), Register::Nil), Instruction::Noop], 3, 4);
    let mut nb = Neighbors::none();
    n.tick(&mut nb);
    assert_eq!(n.ptr, 1);
    assert_eq!(n.accumulator.value(), 3);
    assert_eq!(n.backup.value(), 4);
    assert_eq!(n.port.give_value, None);
    assert_eq!(nb, Neighbors::none());
}

#[test]
fn move_from_nil_writes_zero() {
    let mut n = node(vec![Instruction::Move(RegisterOrNumber::Register(Register::Nil), Register::Accumulator)], 3, 4);
    let mut nb = Neighbors::none();
    n.tick(&mut nb);
    assert_eq!(n.accumulator.value(), 0);
    assert_eq!(n.ptr, 1);
    let mut m = node(vec![Instruction::Move(RegisterOrNumber::Register(Register::Nil), Register::Direction(Direction::Up))], 3, 4);
    m.tick(&mut nb);
    assert_eq!(m.port.give_value, Some(Number::zero()));
    assert_eq!(m.ptr, 0);
    m.handle_give();
    assert_eq!(m.port.give, DirectionGiving::Direction(Direction::Up));
    assert_eq!(m.ptr, 1);
}

#[test]
fn swap_twice_restores() {
    let mut n = node(vec![Instruction::Swap, Instruction::Swap], 11, -22);
    let mut nb = Neighbors::none();
    n.tick(&mut nb);
    assert_eq!(n.accumulator.value(), -22);
    assert_eq!(n.backup.value(), 11);
    n.tick(&mut nb);
    assert_eq!(n.accumulator.value(), 11);
    assert_eq!(n.backup.value(), -22);
}

#[test]
fn save_twice_copies() {
    let mut n = node(vec![Instruction::Save, Instruction::Save], 8, 1);
    let mut nb = Neighbors::none();
    n.tick(&mut nb);
    n.tick(&mut nb);
    assert_eq!(n.accumulator.value(), 8);
    assert_eq!(n.backup.value(), 8);
}

#[test]
fn negate_and_conditional_jumps() {
    let code = vec![Instruction::Negate, Instruction::JumpLessThanZero(3), Instruction::Noop, Instruction::JumpGreaterThanZero(0)];
    let mut n = node(code, 5, 0);
    let mut nb = Neighbors::none();
    n.tick(&mut nb);
    assert_eq!(n.accumulator.value(), -5);
    n.tick(&mut nb);
    assert_eq!(n.ptr, 3);
    n.tick(&mut nb);
    assert_eq!(n.ptr, 4);
    let mut z = node(vec![Instruction::JumpEqualZero(5), Instruction::JumpNotZero(0)], 0, 0);
    z.tick(&mut nb);
    assert_eq!(z.ptr, 5);
    // Past the end the pointer wraps to the first instruction.
    z.tick(&mut nb);
    assert_eq!(z.ptr, 5);
    let mut nz = node(vec![Instruction::JumpEqualZero(5), Instruction::JumpNotZero(0)], 2, 0);
    nz.tick(&mut nb);
    assert_eq!(nz.ptr, 1);
    nz.tick(&mut nb);
    assert_eq!(nz.ptr, 0);
}

#[test]
fn any_tie_break_on_a_port() {
    let offer = Port { give: DirectionGiving::Any, giving_to: None, give_value: Some(Number::from_i32(1)) };
    // A reader below the port's node reads `Up`; one to its right reads `Left`.
    let mut p = offer;
    assert_eq!(p.read(Direction::Left), None);
    assert_eq!(p.read(Direction::Up), None);
    // The reader on the right wins over the one below: `Right < Down`.
    assert_eq!(p.giving_to, Some(Direction::Right));
    let mut q = offer;
    q.read(Direction::Up);
    q.read(Direction::Left);
    assert_eq!(q, p);
    // Readers on the left and above: `Up` wins.
    let mut r = offer;
    r.read(Direction::Right);
    r.read(Direction::Down);
    assert_eq!(r.giving_to, Some(Direction::Up));
}

#[test]
fn directed_offer_only_to_its_side() {
    let offer = Port { give: DirectionGiving::Direction(Direction::Right), giving_to: None, give_value: Some(Number::from_i32(1)) };
    let mut p = offer;
    p.read(Direction::Right);
    assert_eq!(p.giving_to, None);
    p.read(Direction::Left);
    assert_eq!(p.giving_to, Some(Direction::Right));
    let mut given = Port { give: DirectionGiving::Given, ..p };
    assert_eq!(given.read(Direction::Left), Some(Number::from_i32(1)));
    assert_eq!(given.give_value, None);
}

#[test]
fn direction_order_and_opposites() {
    assert_eq!(Direction::Up.min(Direction::Down), Direction::Up);
    assert_eq!(Direction::Right.min(Direction::Left), Direction::Left);
    assert_eq!(Direction::Up.opposite(), Direction::Down);
    assert_eq!(Direction::Left.opposite(), Direction::Right);
    assert_eq!(Position::new(2, 3).in_direction(Direction::Up), Position::new(2, 4));
    assert_eq!(Position::new(2, 3).in_direction(Direction::Left), Position::new(1, 3));
    assert_eq!(Position::new(i32::MAX, 0).checked_in_direction(Direction::Right), None);
    assert_eq!(tis_cli::utils::offset_range(2..5, 10), 12..15);
}
