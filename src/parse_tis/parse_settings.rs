use vstd::prelude::*;
use crate::parse_tis::{Span, text_is};
use crate::position::Position;

verus! {

/// What a token of a node's settings header is.
#[derive(Debug)]
pub enum SettingsTokenKind {
    /// A word naming a kind of I/O node.
    SpecialNode(String),
    Number(i32),
    Comma,
    Colon,
    Accumulator,
    Backup,
    /// Text that is no token.
    Invalid,
}

/// A token of a settings header, with where it stands in the source.
#[derive(Debug)]
pub struct SettingsToken {
    pub kind: SettingsTokenKind,
    pub span: Span,
}

/// The kinds of I/O node.
#[derive(Clone, Copy, Debug, PartialEq, Eq, Structural)]
pub enum SpecialNode {
    NumberConsoleOut,
    NumberConsoleIn,
    ConsoleOut,
    ConsoleIn,
}

/// Why a settings header is not valid.
#[derive(Clone, Copy, Debug, PartialEq, Eq, Structural)]
pub enum SettingsError {
    /// Text that is no token.
    InvalidSyntax(Span),
    /// A word that names no kind of node.
    UnknownSpecialNode(Span),
    /// A position is not of the form `x,y`; the span is where it breaks off.
    ExpectedPosition(Span),
    /// A second position: the first one and the start of the second.
    PositionAlreadySet(Span, Span),
    /// `acc` or `bak` not followed by `:` and a number.
    ExpectedValue(Span),
    /// A kind, `acc` or `bak` given twice.
    AlreadySet(Span),
    /// A comma or colon out of place.
    Unexpected(Span),
    /// The header gives no position.
    NoPosition,
}

/// What a settings header gives.
#[derive(Clone, Copy, Debug, PartialEq, Eq, Structural)]
pub struct Settings {
    pub position: Position,
    /// Where the position stands in the source.
    pub position_span: Span,
    pub accumulator: Option<i32>,
    pub backup: Option<i32>,
    pub special_node: Option<SpecialNode>,
}

/// What has been read of a settings header so far.
#[derive(Clone, Copy, Debug)]
pub struct SettingsState {
    pub position: Option<(Position, Span)>,
    pub accumulator: Option<i32>,
    pub backup: Option<i32>,
    pub special_node: Option<SpecialNode>,
}

/// The kind of I/O node that a word names.
pub open spec fn special_node_of(name: Seq<char>) -> Option<SpecialNode> {
    if name == seq!['n', 'u', 'm', 'b', 'e', 'r', '_', 'c', 'o', 'n', 's', 'o', 'l', 'e', '_', 'o', 'u', 't'] {
        Some(SpecialNode::NumberConsoleOut)
    } else if name == seq!['n', 'u', 'm', 'b', 'e', 'r', '_', 'c', 'o', 'n', 's', 'o', 'l', 'e', '_', 'i', 'n'] {
        Some(SpecialNode::NumberConsoleIn)
    } else if name == seq!['c', 'o', 'n', 's', 'o', 'l', 'e', '_', 'o', 'u', 't'] {
        Some(SpecialNode::ConsoleOut)
    } else if name == seq!['c', 'o', 'n', 's', 'o', 'l', 'e', '_', 'i', 'n'] {
        Some(SpecialNode::ConsoleIn)
    } else {
        None
    }
}

pub open spec fn number_at(toks: Seq<SettingsToken>, j: int) -> Option<i32> {
    if 0 <= j < toks.len() {
        match toks[j].kind {
            SettingsTokenKind::Number(x) => Some(x),
            _ => None,
        }
    } else {
        None
    }
}

pub open spec fn is_comma_at(toks: Seq<SettingsToken>, j: int) -> bool {
    0 <= j < toks.len() && toks[j].kind is Comma
}

pub open spec fn is_colon_at(toks: Seq<SettingsToken>, j: int) -> bool {
    0 <= j < toks.len() && toks[j].kind is Colon
}

/// Reads a settings header from token `i` on, in any order: `x,y`, `acc:N`, `bak:N`
/// and the name of a kind of I/O node, each at most once.
pub open spec fn settings_scan(toks: Seq<SettingsToken>, i: int, st: SettingsState) -> Result<SettingsState, SettingsError>
    decreases toks.len() - i,
{
    if i < 0 || i >= toks.len() {
        Ok(st)
    } else {
        let span = toks[i].span;
        match toks[i].kind {
            SettingsTokenKind::Invalid => Err(SettingsError::InvalidSyntax(span)),
            SettingsTokenKind::SpecialNode(name) => if st.special_node is Some {
                Err(SettingsError::AlreadySet(span))
            } else {
                match special_node_of(name@) {
                    None => Err(SettingsError::UnknownSpecialNode(span)),
                    Some(k) => settings_scan(toks, i + 1, SettingsState { special_node: Some(k), ..st }),
                }
            },
            SettingsTokenKind::Number(x) => match st.position {
                Some((_, first)) => Err(SettingsError::PositionAlreadySet(first, span)),
                None => if !is_comma_at(toks, i + 1) {
                    Err(SettingsError::ExpectedPosition(span))
                } else {
                    match number_at(toks, i + 2) {
                        None => Err(SettingsError::ExpectedPosition(toks[i + 1].span)),
                        Some(y) => settings_scan(
                            toks,
                            i + 3,
                            SettingsState {
                                position: Some(
                                    (
                                        Position { x, y },
                                        Span { start: span.start, end: toks[i + 2].span.end },
                                    ),
                                ),
                                ..st
                            },
                        ),
                    }
                },
            },
            SettingsTokenKind::Accumulator => if st.accumulator is Some {
                Err(SettingsError::AlreadySet(span))
            } else if is_colon_at(toks, i + 1) && number_at(toks, i + 2) is Some {
                settings_scan(toks, i + 3, SettingsState { accumulator: number_at(toks, i + 2), ..st })
            } else {
                Err(SettingsError::ExpectedValue(span))
            },
            SettingsTokenKind::Backup => if st.backup is Some {
                Err(SettingsError::AlreadySet(span))
            } else if is_colon_at(toks, i + 1) && number_at(toks, i + 2) is Some {
                settings_scan(toks, i + 3, SettingsState { backup: number_at(toks, i + 2), ..st })
            } else {
                Err(SettingsError::ExpectedValue(span))
            },
            _ => Err(SettingsError::Unexpected(span)),
        }
    }
}

pub open spec fn empty_settings() -> SettingsState {
    SettingsState { position: None, accumulator: None, backup: None, special_node: None }
}

/// The settings that a header's tokens give, or the first error.
pub open spec fn settings_outcome(toks: Seq<SettingsToken>) -> Result<Settings, SettingsError> {
    match settings_scan(toks, 0, empty_settings()) {
        Err(e) => Err(e),
        Ok(st) => match st.position {
            None => Err(SettingsError::NoPosition),
            Some((p, sp)) => Ok(
                Settings {
                    position: p,
                    position_span: sp,
                    accumulator: st.accumulator,
                    backup: st.backup,
                    special_node: st.special_node,
                },
            ),
        },
    }
}

/// The kind of I/O node that a word names.
pub fn special_node_from(name: &str) -> (r: Option<SpecialNode>)
    ensures
        r == special_node_of(name@),
{
    if text_is(name, &vec!['n', 'u', 'm', 'b', 'e', 'r', '_', 'c', 'o', 'n', 's', 'o', 'l', 'e', '_', 'o', 'u', 't']) {
        Some(SpecialNode::NumberConsoleOut)
    } else if text_is(name, &vec!['n', 'u', 'm', 'b', 'e', 'r', '_', 'c', 'o', 'n', 's', 'o', 'l', 'e', '_', 'i', 'n']) {
        Some(SpecialNode::NumberConsoleIn)
    } else if text_is(name, &vec!['c', 'o', 'n', 's', 'o', 'l', 'e', '_', 'o', 'u', 't']) {
        Some(SpecialNode::ConsoleOut)
    } else if text_is(name, &vec!['c', 'o', 'n', 's', 'o', 'l', 'e', '_', 'i', 'n']) {
        Some(SpecialNode::ConsoleIn)
    } else {
        None
    }
}

fn number_token(toks: &Vec<SettingsToken>, j: usize) -> (r: Option<i32>)
    ensures
        r == number_at(toks@, j as int),
{
    if j < toks.len() {
        match &toks[j].kind {
            SettingsTokenKind::Number(x) => Some(*x),
            _ => None,
        }
    } else {
        None
    }
}

fn comma_token(toks: &Vec<SettingsToken>, j: usize) -> (r: bool)
    ensures
        r == is_comma_at(toks@, j as int),
{
    j < toks.len() && match &toks[j].kind {
        SettingsTokenKind::Comma => true,
        _ => false,
    }
}

fn colon_token(toks: &Vec<SettingsToken>, j: usize) -> (r: bool)
    ensures
        r == is_colon_at(toks@, j as int),
{
    j < toks.len() && match &toks[j].kind {
        SettingsTokenKind::Colon => true,
        _ => false,
    }
}

/// Reads a node's settings header from its tokens.
pub fn parse_settings(toks: &Vec<SettingsToken>) -> (r: Result<Settings, SettingsError>)
    requires
        toks@.len() < usize::MAX - 3,
    ensures
        r == settings_outcome(toks@),
{
    let mut st = SettingsState { position: None, accumulator: None, backup: None, special_node: None };
    let mut i: usize = 0;
    while i < toks.len()
        invariant
            i <= toks@.len(),
            toks@.len() < usize::MAX - 3,
            settings_scan(toks@, 0, empty_settings()) == settings_scan(toks@, i as int, st),
        decreases toks@.len() - i,
    {
        let span = toks[i].span;
        match &toks[i].kind {
            SettingsTokenKind::Invalid => {
                return Err(SettingsError::InvalidSyntax(span));
            },
            SettingsTokenKind::SpecialNode(name) => {
                if st.special_node.is_some() {
                    return Err(SettingsError::AlreadySet(span));
                }
                match special_node_from(name.as_str()) {
                    None => {
                        return Err(SettingsError::UnknownSpecialNode(span));
                    },
                    Some(k) => {
                        st.special_node = Some(k);
                        i = i + 1;
                    },
                }
            },
            SettingsTokenKind::Number(x) => {
                match st.position {
                    Some((_, first)) => {
                        return Err(SettingsError::PositionAlreadySet(first, span));
                    },
                    None => {},
                }
                if !comma_token(toks, i + 1) {
                    return Err(SettingsError::ExpectedPosition(span));
                }
                match number_token(toks, i + 2) {
                    None => {
                        return Err(SettingsError::ExpectedPosition(toks[i + 1].span));
                    },
                    Some(y) => {
                        st.position = Some(
                            (Position::new(*x, y), Span { start: span.start, end: toks[i + 2].span.end }),
                        );
                        i = i + 3;
                    },
                }
            },
            SettingsTokenKind::Accumulator => {
                if st.accumulator.is_some() {
                    return Err(SettingsError::AlreadySet(span));
                }
                let value = number_token(toks, i + 2);
                if colon_token(toks, i + 1) && value.is_some() {
                    st.accumulator = value;
                    i = i + 3;
                } else {
                    return Err(SettingsError::ExpectedValue(span));
                }
            },
            SettingsTokenKind::Backup => {
                if st.backup.is_some() {
                    return Err(SettingsError::AlreadySet(span));
                }
                let value = number_token(toks, i + 2);
                if colon_token(toks, i + 1) && value.is_some() {
                    st.backup = value;
                    i = i + 3;
                } else {
                    return Err(SettingsError::ExpectedValue(span));
                }
            },
            _ => {
                return Err(SettingsError::Unexpected(span));
            },
        }
    }
    match st.position {
        None => Err(SettingsError::NoPosition),
        Some((p, sp)) => Ok(
            Settings {
                position: p,
                position_span: sp,
                accumulator: st.accumulator,
                backup: st.backup,
                special_node: st.special_node,
            },
        ),
    }
}

} // verus!
