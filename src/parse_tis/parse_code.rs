use vstd::prelude::*;
use crate::direction::Direction;
use crate::instruction::Instruction;
use crate::number::Number;
use crate::parse_tis::{Span, same_text};
use crate::register::{Register, RegisterOrNumber};

verus! {

/// What a token of a node's code is.
#[derive(Debug)]
pub enum CodeTokenKind {
    Noop,
    Move,
    Swap,
    Save,
    Add,
    Subtract,
    Negate,
    Jump(String),
    JumpEqualZero(String),
    JumpNotZero(String),
    JumpGreaterThanZero(String),
    JumpLessThanZero(String),
    JumpRelative,
    /// A label definition, without its colon.
    Label(String),
    Newline,
    Number(Number),
    Up,
    Down,
    Left,
    Right,
    Any,
    Last,
    Accumulator,
    Nil,
    /// Text that is no token.
    Invalid,
}

/// A token of a node's code, with where it stands in the source.
#[derive(Debug)]
pub struct CodeToken {
    pub kind: CodeTokenKind,
    pub span: Span,
}

/// An operand word, named in an error when it stands where an instruction should.
#[derive(Clone, Copy, Debug, PartialEq, Eq, Structural)]
pub enum Operand {
    Accumulator,
    Any,
    Last,
    Nil,
    Up,
    Down,
    Left,
    Right,
    Number,
}

/// Why a node's code is not a program.
#[derive(Clone, Copy, Debug, PartialEq, Eq, Structural)]
pub enum CodeError {
    /// Text that is no token.
    InvalidSyntax(Span),
    /// The instruction at this span lacks a register operand.
    ExpectedRegister(Span),
    /// The instruction at this span lacks a register or number operand.
    ExpectedSource(Span),
    /// An operand where an instruction should stand.
    OperandAsInstruction(Operand, Span),
    /// The instruction at this span is not followed by a newline.
    ExpectedNewline(Span),
    /// A label at the end of the code, with nothing after it.
    TrailingLabel(Span),
    /// A label defined twice: the earlier and the later definition.
    LabelRedefined(Span, Span),
    /// A jump to a label that is not defined.
    LabelNotFound(Span),
}

/// The condition of a jump to a label.
#[derive(Clone, Copy, Debug, PartialEq, Eq, Structural)]
pub enum JumpKind {
    Always,
    EqualZero,
    NotZero,
    GreaterThanZero,
    LessThanZero,
}

/// An instruction as read, before labels are resolved: a jump names the token that
/// holds its label.
#[derive(Clone, Copy, Debug, PartialEq, Eq, Structural)]
pub enum Pending {
    Ready(Instruction),
    Jump(JumpKind, usize),
}

/// The label that a label definition or a jump names.
pub open spec fn label_name(t: CodeToken) -> Seq<char> {
    match t.kind {
        CodeTokenKind::Label(s) => s@,
        CodeTokenKind::Jump(s) => s@,
        CodeTokenKind::JumpEqualZero(s) => s@,
        CodeTokenKind::JumpNotZero(s) => s@,
        CodeTokenKind::JumpGreaterThanZero(s) => s@,
        CodeTokenKind::JumpLessThanZero(s) => s@,
        _ => Seq::empty(),
    }
}

/// The register that token `j` names; otherwise the instruction at `span` lacks one.
pub open spec fn register_at(toks: Seq<CodeToken>, j: int, span: Span) -> Result<Register, CodeError> {
    if j >= toks.len() {
        Err(CodeError::ExpectedRegister(span))
    } else {
        match toks[j].kind {
            CodeTokenKind::Up => Ok(Register::Direction(Direction::Up)),
            CodeTokenKind::Down => Ok(Register::Direction(Direction::Down)),
            CodeTokenKind::Left => Ok(Register::Direction(Direction::Left)),
            CodeTokenKind::Right => Ok(Register::Direction(Direction::Right)),
            CodeTokenKind::Any => Ok(Register::Any),
            CodeTokenKind::Last => Ok(Register::Last),
            CodeTokenKind::Accumulator => Ok(Register::Accumulator),
            CodeTokenKind::Nil => Ok(Register::Nil),
            _ => Err(CodeError::ExpectedRegister(span)),
        }
    }
}

/// The register or number that token `j` names; otherwise the instruction at `span`
/// lacks one.
pub open spec fn source_at(toks: Seq<CodeToken>, j: int, span: Span) -> Result<RegisterOrNumber, CodeError> {
    if j < toks.len() && toks[j].kind is Number {
        match toks[j].kind {
            CodeTokenKind::Number(n) => Ok(RegisterOrNumber::Number(n)),
            _ => Err(CodeError::ExpectedSource(span)),
        }
    } else {
        match register_at(toks, j, span) {
            Ok(r) => Ok(RegisterOrNumber::Register(r)),
            Err(_) => Err(CodeError::ExpectedSource(span)),
        }
    }
}

/// The instruction that starts at token `i` (not a newline, label or invalid text),
/// and the index of the token after it.
pub open spec fn statement(toks: Seq<CodeToken>, i: int) -> Result<(Pending, int), CodeError> {
    let span = toks[i].span;
    match toks[i].kind {
        CodeTokenKind::Noop => Ok((Pending::Ready(Instruction::Noop), i + 1)),
        CodeTokenKind::Swap => Ok((Pending::Ready(Instruction::Swap), i + 1)),
        CodeTokenKind::Save => Ok((Pending::Ready(Instruction::Save), i + 1)),
        CodeTokenKind::Negate => Ok((Pending::Ready(Instruction::Negate), i + 1)),
        CodeTokenKind::Move => match source_at(toks, i + 1, span) {
            Err(e) => Err(e),
            Ok(src) => match register_at(toks, i + 2, span) {
                Err(e) => Err(e),
                Ok(dst) => Ok((Pending::Ready(Instruction::Move(src, dst)), i + 3)),
            },
        },
        CodeTokenKind::Add => match source_at(toks, i + 1, span) {
            Err(e) => Err(e),
            Ok(src) => Ok((Pending::Ready(Instruction::Add(src)), i + 2)),
        },
        CodeTokenKind::Subtract => match source_at(toks, i + 1, span) {
            Err(e) => Err(e),
            Ok(src) => Ok((Pending::Ready(Instruction::Subtract(src)), i + 2)),
        },
        CodeTokenKind::JumpRelative => match source_at(toks, i + 1, span) {
            Err(e) => Err(e),
            Ok(src) => Ok((Pending::Ready(Instruction::JumpRelative(src)), i + 2)),
        },
        CodeTokenKind::Jump(_) => Ok((Pending::Jump(JumpKind::Always, i as usize), i + 1)),
        CodeTokenKind::JumpEqualZero(_) => Ok((Pending::Jump(JumpKind::EqualZero, i as usize), i + 1)),
        CodeTokenKind::JumpNotZero(_) => Ok((Pending::Jump(JumpKind::NotZero, i as usize), i + 1)),
        CodeTokenKind::JumpGreaterThanZero(_) => Ok(
            (Pending::Jump(JumpKind::GreaterThanZero, i as usize), i + 1),
        ),
        CodeTokenKind::JumpLessThanZero(_) => Ok(
            (Pending::Jump(JumpKind::LessThanZero, i as usize), i + 1),
        ),
        CodeTokenKind::Accumulator => Err(CodeError::OperandAsInstruction(Operand::Accumulator, span)),
        CodeTokenKind::Any => Err(CodeError::OperandAsInstruction(Operand::Any, span)),
        CodeTokenKind::Last => Err(CodeError::OperandAsInstruction(Operand::Last, span)),
        CodeTokenKind::Nil => Err(CodeError::OperandAsInstruction(Operand::Nil, span)),
        CodeTokenKind::Up => Err(CodeError::OperandAsInstruction(Operand::Up, span)),
        CodeTokenKind::Down => Err(CodeError::OperandAsInstruction(Operand::Down, span)),
        CodeTokenKind::Left => Err(CodeError::OperandAsInstruction(Operand::Left, span)),
        CodeTokenKind::Right => Err(CodeError::OperandAsInstruction(Operand::Right, span)),
        CodeTokenKind::Number(_) => Err(CodeError::OperandAsInstruction(Operand::Number, span)),
        _ => Err(CodeError::InvalidSyntax(span)),
    }
}

/// Index, in `labels`, of the definition of the label `name`, if any; `labels` holds
/// pairs of a label token's index and the instruction index it marks.
pub open spec fn find_label(toks: Seq<CodeToken>, labels: Seq<(usize, usize)>, name: Seq<char>) -> Option<int>
    decreases labels.len(),
{
    if labels.len() == 0 {
        None
    } else if label_name(toks[labels.last().0 as int]) == name {
        Some(labels.len() - 1)
    } else {
        find_label(toks, labels.drop_last(), name)
    }
}

/// Reads the code from token `i` on, with the instructions, the labels and the last
/// token if it was a label definition so far.
pub open spec fn scan(
    toks: Seq<CodeToken>,
    i: int,
    instrs: Seq<Pending>,
    labels: Seq<(usize, usize)>,
    prev: Option<usize>,
) -> Result<(Seq<Pending>, Seq<(usize, usize)>, Option<usize>), CodeError>
    decreases toks.len() - i,
{
    if i < 0 || i >= toks.len() {
        Ok((instrs, labels, prev))
    } else {
        match toks[i].kind {
            CodeTokenKind::Invalid => Err(CodeError::InvalidSyntax(toks[i].span)),
            CodeTokenKind::Newline => scan(toks, i + 1, instrs, labels, None),
            CodeTokenKind::Label(_) => match find_label(toks, labels, label_name(toks[i])) {
                Some(k) => Err(CodeError::LabelRedefined(toks[labels[k].0 as int].span, toks[i].span)),
                None => scan(
                    toks,
                    i + 1,
                    instrs,
                    labels.push((i as usize, instrs.len() as usize)),
                    Some(i as usize),
                ),
            },
            _ => match statement(toks, i) {
                Err(e) => Err(e),
                Ok((p, j)) => if i < j < toks.len() && toks[j].kind is Newline {
                    scan(toks, j + 1, instrs.push(p), labels, None)
                } else {
                    Err(CodeError::ExpectedNewline(toks[i].span))
                },
            },
        }
    }
}

/// The instruction that `p` becomes once labels are resolved.
pub open spec fn resolved(toks: Seq<CodeToken>, labels: Seq<(usize, usize)>, p: Pending) -> Result<Instruction, CodeError> {
    match p {
        Pending::Ready(ins) => Ok(ins),
        Pending::Jump(kind, t) => match find_label(toks, labels, label_name(toks[t as int])) {
            None => Err(CodeError::LabelNotFound(toks[t as int].span)),
            Some(k) => {
                let target = labels[k].1;
                Ok(
                    match kind {
                        JumpKind::Always => Instruction::Jump(target),
                        JumpKind::EqualZero => Instruction::JumpEqualZero(target),
                        JumpKind::NotZero => Instruction::JumpNotZero(target),
                        JumpKind::GreaterThanZero => Instruction::JumpGreaterThanZero(target),
                        JumpKind::LessThanZero => Instruction::JumpLessThanZero(target),
                    },
                )
            },
        },
    }
}

/// The first `n` pending instructions resolved, or the first one that cannot be.
pub open spec fn resolve_all(toks: Seq<CodeToken>, labels: Seq<(usize, usize)>, instrs: Seq<Pending>, n: nat) -> Result<Seq<Instruction>, CodeError>
    decreases n,
{
    if n == 0 {
        Ok(Seq::empty())
    } else {
        match resolve_all(toks, labels, instrs, (n - 1) as nat) {
            Err(e) => Err(e),
            Ok(done) => match resolved(toks, labels, instrs[n - 1]) {
                Err(e) => Err(e),
                Ok(ins) => Ok(done.push(ins)),
            },
        }
    }
}

/// The program that the tokens of a node's code spell, with each jump's label resolved
/// to the index of the instruction after the label's definition, or the first error.
pub open spec fn code_outcome(toks: Seq<CodeToken>) -> Result<Seq<Instruction>, CodeError> {
    match scan(toks, 0, Seq::empty(), Seq::empty(), None) {
        Err(e) => Err(e),
        Ok((instrs, labels, prev)) => match prev {
            Some(k) => Err(CodeError::TrailingLabel(toks[k as int].span)),
            None => resolve_all(toks, labels, instrs, instrs.len()),
        },
    }
}

/// The label that a label definition or a jump names.
fn label_of(t: &CodeToken) -> (r: &str)
    ensures
        r@ == label_name(*t),
{
    match &t.kind {
        CodeTokenKind::Label(s) => s.as_str(),
        CodeTokenKind::Jump(s) => s.as_str(),
        CodeTokenKind::JumpEqualZero(s) => s.as_str(),
        CodeTokenKind::JumpNotZero(s) => s.as_str(),
        CodeTokenKind::JumpGreaterThanZero(s) => s.as_str(),
        CodeTokenKind::JumpLessThanZero(s) => s.as_str(),
        _ => {
            proof {
                reveal_strlit("");
            }
            ""
        },
    }
}

/// Finds the definition of the label `name` (see [`find_label`]).
fn get_label(toks: &Vec<CodeToken>, labels: &Vec<(usize, usize)>, name: &str) -> (r: Option<usize>)
    requires
        forall|k: int| 0 <= k < labels@.len() ==> (#[trigger] labels@[k]).0 < toks@.len(),
    ensures
        match r {
            Some(k) => find_label(toks@, labels@, name@) == Some(k as int) && k < labels@.len(),
            None => find_label(toks@, labels@, name@) is None,
        },
{
    let mut k: usize = labels.len();
    assert(labels@.subrange(0, k as int) =~= labels@);
    while k > 0
        invariant
            k <= labels@.len(),
            forall|k: int| 0 <= k < labels@.len() ==> (#[trigger] labels@[k]).0 < toks@.len(),
            find_label(toks@, labels@, name@) == find_label(toks@, labels@.subrange(0, k as int), name@),
        decreases k,
    {
        let t = labels[k - 1].0;
        let ghost pre = labels@.subrange(0, k as int);
        assert(pre.last() == labels@[k - 1]);
        assert(pre.drop_last() =~= labels@.subrange(0, k - 1));
        if same_text(label_of(&toks[t]), name) {
            return Some(k - 1);
        }
        k = k - 1;
    }
    None
}

/// The register that token `j` names (see [`register_at`]).
pub fn get_register(toks: &Vec<CodeToken>, j: usize, span: Span) -> (r: Result<Register, CodeError>)
    ensures
        r == register_at(toks@, j as int, span),
{
    if j >= toks.len() {
        return Err(CodeError::ExpectedRegister(span));
    }
    match &toks[j].kind {
        CodeTokenKind::Up => Ok(Register::Direction(Direction::Up)),
        CodeTokenKind::Down => Ok(Register::Direction(Direction::Down)),
        CodeTokenKind::Left => Ok(Register::Direction(Direction::Left)),
        CodeTokenKind::Right => Ok(Register::Direction(Direction::Right)),
        CodeTokenKind::Any => Ok(Register::Any),
        CodeTokenKind::Last => Ok(Register::Last),
        CodeTokenKind::Accumulator => Ok(Register::Accumulator),
        CodeTokenKind::Nil => Ok(Register::Nil),
        _ => Err(CodeError::ExpectedRegister(span)),
    }
}

/// The register or number that token `j` names (see [`source_at`]).
pub fn get_register_or_number(toks: &Vec<CodeToken>, j: usize, span: Span) -> (r: Result<
    RegisterOrNumber,
    CodeError,
>)
    ensures
        r == source_at(toks@, j as int, span),
{
    if j < toks.len() {
        if let CodeTokenKind::Number(n) = &toks[j].kind {
            return Ok(RegisterOrNumber::Number(*n));
        }
    }
    match get_register(toks, j, span) {
        Ok(r) => Ok(RegisterOrNumber::Register(r)),
        Err(_) => Err(CodeError::ExpectedSource(span)),
    }
}

/// The instruction that starts at token `i` (see [`statement`]).
fn get_statement(toks: &Vec<CodeToken>, i: usize) -> (r: Result<(Pending, usize), CodeError>)
    requires
        i < toks@.len(),
        toks@.len() < usize::MAX - 3,
    ensures
        match r {
            Ok((p, j)) => statement(toks@, i as int) == Ok::<(Pending, int), CodeError>(
                (p, j as int),
            ),
            Err(e) => statement(toks@, i as int) == Err::<(Pending, int), CodeError>(e),
        },
{
    let span = toks[i].span;
    match &toks[i].kind {
        CodeTokenKind::Noop => Ok((Pending::Ready(Instruction::Noop), i + 1)),
        CodeTokenKind::Swap => Ok((Pending::Ready(Instruction::Swap), i + 1)),
        CodeTokenKind::Save => Ok((Pending::Ready(Instruction::Save), i + 1)),
        CodeTokenKind::Negate => Ok((Pending::Ready(Instruction::Negate), i + 1)),
        CodeTokenKind::Move => {
            let src = match get_register_or_number(toks, i + 1, span) {
                Ok(src) => src,
                Err(e) => return Err(e),
            };
            let dst = match get_register(toks, i + 2, span) {
                Ok(dst) => dst,
                Err(e) => return Err(e),
            };
            Ok((Pending::Ready(Instruction::Move(src, dst)), i + 3))
        },
        CodeTokenKind::Add => match get_register_or_number(toks, i + 1, span) {
            Ok(src) => Ok((Pending::Ready(Instruction::Add(src)), i + 2)),
            Err(e) => Err(e),
        },
        CodeTokenKind::Subtract => match get_register_or_number(toks, i + 1, span) {
            Ok(src) => Ok((Pending::Ready(Instruction::Subtract(src)), i + 2)),
            Err(e) => Err(e),
        },
        CodeTokenKind::JumpRelative => match get_register_or_number(toks, i + 1, span) {
            Ok(src) => Ok((Pending::Ready(Instruction::JumpRelative(src)), i + 2)),
            Err(e) => Err(e),
        },
        CodeTokenKind::Jump(_) => Ok((Pending::Jump(JumpKind::Always, i), i + 1)),
        CodeTokenKind::JumpEqualZero(_) => Ok((Pending::Jump(JumpKind::EqualZero, i), i + 1)),
        CodeTokenKind::JumpNotZero(_) => Ok((Pending::Jump(JumpKind::NotZero, i), i + 1)),
        CodeTokenKind::JumpGreaterThanZero(_) => Ok(
            (Pending::Jump(JumpKind::GreaterThanZero, i), i + 1),
        ),
        CodeTokenKind::JumpLessThanZero(_) => Ok((Pending::Jump(JumpKind::LessThanZero, i), i + 1)),
        CodeTokenKind::Accumulator => Err(CodeError::OperandAsInstruction(Operand::Accumulator, span)),
        CodeTokenKind::Any => Err(CodeError::OperandAsInstruction(Operand::Any, span)),
        CodeTokenKind::Last => Err(CodeError::OperandAsInstruction(Operand::Last, span)),
        CodeTokenKind::Nil => Err(CodeError::OperandAsInstruction(Operand::Nil, span)),
        CodeTokenKind::Up => Err(CodeError::OperandAsInstruction(Operand::Up, span)),
        CodeTokenKind::Down => Err(CodeError::OperandAsInstruction(Operand::Down, span)),
        CodeTokenKind::Left => Err(CodeError::OperandAsInstruction(Operand::Left, span)),
        CodeTokenKind::Right => Err(CodeError::OperandAsInstruction(Operand::Right, span)),
        CodeTokenKind::Number(_) => Err(CodeError::OperandAsInstruction(Operand::Number, span)),
        _ => Err(CodeError::InvalidSyntax(span)),
    }
}

/// Reads the program of a compute node from its tokens: one instruction per line,
/// labels resolved to instruction indices.
pub fn parse_code(toks: &Vec<CodeToken>) -> (r: Result<Vec<Instruction>, CodeError>)
    requires
        toks@.len() < usize::MAX - 3,
    ensures
        match r {
            Ok(v) => code_outcome(toks@) == Ok::<Seq<Instruction>, CodeError>(v@),
            Err(e) => code_outcome(toks@) == Err::<Seq<Instruction>, CodeError>(e),
        },
{
    let mut instrs: Vec<Pending> = Vec::new();
    let mut labels: Vec<(usize, usize)> = Vec::new();
    let mut prev: Option<usize> = None;
    let mut i: usize = 0;
    while i < toks.len()
        invariant
            i <= toks@.len(),
            toks@.len() < usize::MAX - 3,
            instrs@.len() <= i,
            scan(toks@, 0, Seq::empty(), Seq::empty(), None) == scan(
                toks@,
                i as int,
                instrs@,
                labels@,
                prev,
            ),
            forall|k: int| 0 <= k < labels@.len() ==> (#[trigger] labels@[k]).0 < toks@.len(),
            forall|k: int|
                0 <= k < instrs@.len() ==> (#[trigger] instrs@[k] matches Pending::Jump(_, t)
                    ==> t < toks@.len()),
            prev matches Some(k) ==> k < toks@.len(),
        decreases toks@.len() - i,
    {
        let span = toks[i].span;
        match &toks[i].kind {
            CodeTokenKind::Invalid => {
                return Err(CodeError::InvalidSyntax(span));
            },
            CodeTokenKind::Newline => {
                prev = None;
                i = i + 1;
            },
            CodeTokenKind::Label(name) => {
                let found = get_label(toks, &labels, name.as_str());
                match found {
                    Some(k) => {
                        return Err(CodeError::LabelRedefined(toks[labels[k].0].span, span));
                    },
                    None => {
                        labels.push((i, instrs.len()));
                        prev = Some(i);
                        i = i + 1;
                    },
                }
            },
            _ => {
                match get_statement(toks, i) {
                    Err(e) => {
                        return Err(e);
                    },
                    Ok((p, j)) => {
                        let newline = j < toks.len() && match &toks[j].kind {
                            CodeTokenKind::Newline => true,
                            _ => false,
                        };
                        if newline {
                            instrs.push(p);
                            prev = None;
                            i = j + 1;
                        } else {
                            return Err(CodeError::ExpectedNewline(span));
                        }
                    },
                }
            },
        }
    }
    if let Some(k) = prev {
        return Err(CodeError::TrailingLabel(toks[k].span));
    }
    assert(code_outcome(toks@) == resolve_all(toks@, labels@, instrs@, instrs@.len()));
    let mut out: Vec<Instruction> = Vec::new();
    let mut n: usize = 0;
    while n < instrs.len()
        invariant
            n <= instrs@.len(),
            resolve_all(toks@, labels@, instrs@, n as nat) == Ok::<Seq<Instruction>, CodeError>(out@),
            code_outcome(toks@) == resolve_all(toks@, labels@, instrs@, instrs@.len()),
            forall|k: int| 0 <= k < labels@.len() ==> (#[trigger] labels@[k]).0 < toks@.len(),
            forall|k: int|
                0 <= k < instrs@.len() ==> (#[trigger] instrs@[k] matches Pending::Jump(_, t)
                    ==> t < toks@.len()),
        decreases instrs@.len() - n,
    {
        let ins = match instrs[n] {
            Pending::Ready(ins) => ins,
            Pending::Jump(kind, t) => {
                match get_label(toks, &labels, label_of(&toks[t])) {
                    None => {
                        proof {
                            lemma_resolve_error_stays(
                                toks@,
                                labels@,
                                instrs@,
                                (n + 1) as nat,
                                instrs@.len(),
                            );
                        }
                        return Err(CodeError::LabelNotFound(toks[t].span));
                    },
                    Some(k) => {
                        let target = labels[k].1;
                        match kind {
                            JumpKind::Always => Instruction::Jump(target),
                            JumpKind::EqualZero => Instruction::JumpEqualZero(target),
                            JumpKind::NotZero => Instruction::JumpNotZero(target),
                            JumpKind::GreaterThanZero => Instruction::JumpGreaterThanZero(target),
                            JumpKind::LessThanZero => Instruction::JumpLessThanZero(target),
                        }
                    },
                }
            },
        };
        out.push(ins);
        n = n + 1;
    }
    Ok(out)
}

proof fn lemma_resolve_error_stays(
    toks: Seq<CodeToken>,
    labels: Seq<(usize, usize)>,
    instrs: Seq<Pending>,
    k: nat,
    m: nat,
)
    requires
        k <= m,
        resolve_all(toks, labels, instrs, k) is Err,
    ensures
        resolve_all(toks, labels, instrs, m) == resolve_all(toks, labels, instrs, k),
    decreases m - k,
{
    if k < m {
        lemma_resolve_error_stays(toks, labels, instrs, k, (m - 1) as nat);
    }
}

} // verus!
