use tis_cli::direction::Direction;
use tis_cli::instruction::Instruction;
use tis_cli::number::Number;
use tis_cli::parse_tis::parse_code::{parse_code, CodeError, CodeToken, CodeTokenKind, Operand};
use tis_cli::parse_tis::parse_settings::{parse_settings, SettingsError, SettingsToken, SettingsTokenKind, SpecialNode};
use tis_cli::parse_tis::{make_node, NodeError, Span};
use tis_cli::position::Position;
use tis_cli::register::{Register, RegisterOrNumber};
use tis_cli::tis::Node;

fn code(kinds: Vec<CodeTokenKind>) -> Vec<CodeToken> {
    kinds.into_iter().enumerate().map(|(i, kind)| CodeToken { kind, span: Span { start: i, end: i + 1 } }).collect()
}

fn settings(kinds: Vec<SettingsTokenKind>) -> Vec<SettingsToken> {
    kinds.into_iter().enumerate().map(|(i, kind)| SettingsToken { kind, span: Span { start: i, end: i + 1 } }).collect()
}

fn sp(i: usize) -> Span {
    Span { start: i, end: i + 1 }
}

use CodeTokenKind as K;

#[test]
fn parses_a_loop_with_labels() {
    let toks = code(vec![
        K::Label("start".to_string()),
        K::Move, K::Left, K::Accumulator, K::Newline,
        K::Add, K::Number(Number::from_i32(1)), K::Newline,
        K::JumpNotZero("start".to_string()), K::Newline,
        K::Newline,
        K::Label("end".to_string()), K::Negate, K::Newline,
    ]);
    let prog = parse_code(&toks).unwrap();
    assert_eq!(prog, vec![
        Instruction::Move(RegisterOrNumber::Register(Register::Direction(Direction::Left)), Register::Accumulator),
        Instruction::Add(RegisterOrNumber::Number(Number::from_i32(1))),
        Instruction::JumpNotZero(0),
        Instruction::Negate,
    ]);
}

#[test]
fn label_at_end_of_blank_lines_points_past_end() {
    let toks = code(vec![K::Noop, K::Newline, K::Label("e".to_string()), K::Newline, K::Jump("e".to_string()), K::Newline]);
    assert_eq!(parse_code(&toks).unwrap(), vec![Instruction::Noop, Instruction::Jump(1)]);
}

#[test]
fn code_errors() {
    assert_eq!(parse_code(&code(vec![K::Invalid])), Err(CodeError::InvalidSyntax(sp(0))));
    assert_eq!(parse_code(&code(vec![K::Move, K::Number(Number::from_i32(1)), K::Number(Number::from_i32(2)), K::Newline])), Err(CodeError::ExpectedRegister(sp(0))));
    assert_eq!(parse_code(&code(vec![K::Add, K::Newline])), Err(CodeError::ExpectedSource(sp(0))));
    assert_eq!(parse_code(&code(vec![K::Accumulator, K::Newline])), Err(CodeError::OperandAsInstruction(Operand::Accumulator, sp(0))));
    assert_eq!(parse_code(&code(vec![K::Swap, K::Swap, K::Newline])), Err(CodeError::ExpectedNewline(sp(0))));
    assert_eq!(parse_code(&code(vec![K::Noop, K::Newline, K::Label("a".to_string())])), Err(CodeError::TrailingLabel(sp(2))));
    assert_eq!(parse_code(&code(vec![K::Label("a".to_string()), K::Noop, K::Newline, K::Label("a".to_string()), K::Noop, K::Newline])), Err(CodeError::LabelRedefined(sp(0), sp(3))));
    assert_eq!(parse_code(&code(vec![K::Jump("nowhere".to_string()), K::Newline])), Err(CodeError::LabelNotFound(sp(0))));
}

use SettingsTokenKind as S;

#[test]
fn parses_settings_in_any_order() {
    let toks = settings(vec![S::Accumulator, S::Colon, S::Number(990), S::Number(3), S::Comma, S::Number(-4), S::Backup, S::Colon, S::Number(2)]);
    let s = parse_settings(&toks).unwrap();
    assert_eq!(s.position, Position::new(3, -4));
    assert_eq!(s.position_span, Span { start: 3, end: 6 });
    assert_eq!(s.accumulator, Some(990));
    assert_eq!(s.backup, Some(2));
    assert_eq!(s.special_node, None);
    let io = parse_settings(&settings(vec![S::Number(0), S::Comma, S::Number(0), S::SpecialNode("number_console_in".to_string())])).unwrap();
    assert_eq!(io.special_node, Some(SpecialNode::NumberConsoleIn));
}

#[test]
fn settings_errors() {
    assert_eq!(parse_settings(&settings(vec![])), Err(SettingsError::NoPosition));
    assert_eq!(parse_settings(&settings(vec![S::Invalid])), Err(SettingsError::InvalidSyntax(sp(0))));
    assert_eq!(parse_settings(&settings(vec![S::SpecialNode("printer".to_string())])), Err(SettingsError::UnknownSpecialNode(sp(0))));
    assert_eq!(parse_settings(&settings(vec![S::Number(1), S::Number(2)])), Err(SettingsError::ExpectedPosition(sp(0))));
    assert_eq!(parse_settings(&settings(vec![S::Number(1), S::Comma, S::Comma])), Err(SettingsError::ExpectedPosition(sp(1))));
    assert_eq!(parse_settings(&settings(vec![S::Number(1), S::Comma, S::Number(2), S::Number(3)])), Err(SettingsError::PositionAlreadySet(Span { start: 0, end: 3 }, sp(3))));
    assert_eq!(parse_settings(&settings(vec![S::Accumulator, S::Number(3)])), Err(SettingsError::ExpectedValue(sp(0))));
    assert_eq!(parse_settings(&settings(vec![S::Backup, S::Colon, S::Number(3), S::Backup])), Err(SettingsError::AlreadySet(sp(3))));
    assert_eq!(parse_settings(&settings(vec![S::Colon])), Err(SettingsError::Unexpected(sp(0))));
}

#[test]
fn builds_nodes_from_settings() {
    let s = parse_settings(&settings(vec![S::Number(1), S::Comma, S::Number(2), S::Accumulator, S::Colon, S::Number(5000)])).unwrap();
    match make_node(&s, vec![Instruction::Noop]).unwrap() {
        Node::Instruction(n) => {
            assert_eq!(n.position, Position::new(1, 2));
            assert_eq!(n.accumulator.value(), 999);
            assert_eq!(n.backup.value(), 0);
            assert_eq!(n.instructions, vec![Instruction::Noop]);
        }
        _ => panic!("expected a compute node"),
    }
    let io = parse_settings(&settings(vec![S::Number(1), S::Comma, S::Number(2), S::SpecialNode("console_out".to_string()), S::Backup, S::Colon, S::Number(1)])).unwrap();
    assert_eq!(make_node(&io, vec![]).err(), Some(NodeError::SpecialNodeWithBackup));
    let out = parse_settings(&settings(vec![S::SpecialNode("console_out".to_string()), S::Number(1), S::Comma, S::Number(2)])).unwrap();
    assert!(matches!(make_node(&out, vec![]), Ok(Node::ConsoleOut(_))));
}
