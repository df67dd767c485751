//! The assembler: from token lines to the flat instruction array.
//!
//! The source is a sequence of lines, each a sequence of tokens. Every line
//! becomes exactly one instruction, so the index of a line is the address of
//! its instruction. Labels and procedures are resolved to such addresses in a
//! pass of their own before any line is decoded.
//!
//! In contracts a line stands for the sequence of its tokens, each token for
//! its sequence of characters.

use vstd::prelude::*;

use crate::instruction::{Instruction, Pointer};
use crate::tables::{Labels, Procedures};
use crate::text::{index_operand, parse_index, parse_signed, same_text, signed_operand};

verus! {

/// Why a source text is not a program.
#[derive(Debug, Clone, Copy, PartialEq, Eq, Structural)]
pub enum DecodeError {
    /// The line starts with no known mnemonic, or has the wrong number of
    /// operands for the one it starts with.
    InvalidInstruction,
    /// The operand is not an integer of the kind the instruction takes.
    InvalidOperand,
    /// A jump names a label that is declared nowhere.
    UndefinedLabel,
    /// A `Proc` or `Call` line names a procedure that the resolver did not
    /// register.
    UndefinedProcedure,
    /// A `Proc` line is followed by no `End` line.
    UnterminatedProcedure,
}

/// The line declares a label: `label <name>`.
pub open spec fn is_label_line(line: Seq<Seq<char>>) -> bool {
    line.len() == 2 && line[0] == "label"@
}

/// The line declares a procedure: `Proc <name>`.
pub open spec fn is_proc_line(line: Seq<Seq<char>>) -> bool {
    line.len() == 2 && line[0] == "Proc"@
}

/// The line ends a procedure: `End`.
pub open spec fn is_end_line(line: Seq<Seq<char>>) -> bool {
    line.len() == 1 && line[0] == "End"@
}

/// The labels of a source: each name declared by a `label` line, bound to
/// the index of the line that follows. Where a name is declared twice, the
/// later declaration counts.
pub open spec fn label_map(lines: Seq<Seq<Seq<char>>>) -> Map<Seq<char>, Pointer>
    decreases lines.len(),
{
    if lines.len() == 0 {
        Map::empty()
    } else {
        let before = label_map(lines.drop_last());
        if is_label_line(lines.last()) {
            before.insert(lines.last()[1], lines.len() as usize)
        } else {
            before
        }
    }
}

/// Line `i` lies in the body of a procedure: some `Proc` line stands before
/// it with no `End` line between the two.
pub open spec fn inside_procedure(lines: Seq<Seq<Seq<char>>>, i: int) -> bool
    decreases i,
{
    0 < i <= lines.len() && (is_proc_line(lines[i - 1]) || (!is_end_line(lines[i - 1])
        && inside_procedure(lines, i - 1)))
}

/// Line `i` opens a procedure: it is a `Proc` line outside any procedure
/// body. A `Proc` line inside a body opens nothing and registers no name.
pub open spec fn opens_procedure(lines: Seq<Seq<Seq<char>>>, i: int) -> bool {
    0 <= i < lines.len() && is_proc_line(lines[i]) && !inside_procedure(lines, i)
}

/// The index of the first `End` line at or after `from`, or the number of
/// lines where there is none.
pub open spec fn next_end(lines: Seq<Seq<Seq<char>>>, from: int) -> int
    decreases lines.len() - from,
{
    if from < 0 || from >= lines.len() {
        lines.len() as int
    } else if is_end_line(lines[from]) {
        from
    } else {
        next_end(lines, from + 1)
    }
}

/// The procedures that the first `n` lines open. Each is bound to the index
/// of its `Proc` line and the index one past the next `End` line: pairing is
/// by position alone. Where a name is opened twice, the later one counts.
pub open spec fn procedure_map(lines: Seq<Seq<Seq<char>>>, n: int) -> Map<
    Seq<char>,
    (Pointer, Pointer),
>
    decreases n,
{
    if n <= 0 {
        Map::empty()
    } else {
        let before = procedure_map(lines, n - 1);
        if opens_procedure(lines, n - 1) {
            before.insert(lines[n - 1][1], ((n - 1) as usize, (next_end(lines, n) + 1) as usize))
        } else {
            before
        }
    }
}

/// Some `Proc` line is followed by no `End` line.
pub open spec fn has_unterminated_procedure(lines: Seq<Seq<Seq<char>>>) -> bool {
    exists|i: int|
        0 <= i < lines.len() && is_proc_line(#[trigger] lines[i]) && next_end(lines, i)
            >= lines.len()
}

/// The procedures of a source, or the reason why it has none.
pub open spec fn procedures_of(lines: Seq<Seq<Seq<char>>>) -> Result<
    Map<Seq<char>, (Pointer, Pointer)>,
    DecodeError,
> {
    if has_unterminated_procedure(lines) {
        Err(DecodeError::UnterminatedProcedure)
    } else {
        Ok(procedure_map(lines, lines.len() as int))
    }
}

/// The instruction that a line of one token spells.
pub open spec fn decode_bare(mnemonic: Seq<char>) -> Result<Instruction, DecodeError> {
    if mnemonic == "Pop"@ {
        Ok(Instruction::Pop)
    } else if mnemonic == "Add"@ {
        Ok(Instruction::Add)
    } else if mnemonic == "Sub"@ {
        Ok(Instruction::Sub)
    } else if mnemonic == "Mul"@ {
        Ok(Instruction::Mul)
    } else if mnemonic == "Div"@ {
        Ok(Instruction::Div)
    } else if mnemonic == "Incr"@ {
        Ok(Instruction::Incr)
    } else if mnemonic == "Decr"@ {
        Ok(Instruction::Decr)
    } else if mnemonic == "Print"@ {
        Ok(Instruction::Print)
    } else if mnemonic == "PrintChar"@ {
        Ok(Instruction::PrintChar)
    } else if mnemonic == "PrintStack"@ {
        Ok(Instruction::PrintStack)
    } else if mnemonic == "Ret"@ {
        Ok(Instruction::Ret)
    } else if mnemonic == "End"@ {
        Ok(Instruction::Noop)
    } else {
        Err(DecodeError::InvalidInstruction)
    }
}

/// The stack value that an operand spells.
pub open spec fn decode_value(operand: Seq<char>) -> Result<isize, DecodeError> {
    match signed_operand(operand) {
        Some(v) => Ok(v),
        None => Err(DecodeError::InvalidOperand),
    }
}

/// The slot offset that an operand spells.
pub open spec fn decode_offset(operand: Seq<char>) -> Result<Pointer, DecodeError> {
    match index_operand(operand) {
        Some(i) => Ok(i),
        None => Err(DecodeError::InvalidOperand),
    }
}

/// The address that a label name stands for.
pub open spec fn decode_label(labels: Map<Seq<char>, Pointer>, name: Seq<char>) -> Result<
    Pointer,
    DecodeError,
> {
    if labels.contains_key(name) {
        Ok(labels[name])
    } else {
        Err(DecodeError::UndefinedLabel)
    }
}

/// The pair that a procedure name stands for.
pub open spec fn decode_procedure(
    procedures: Map<Seq<char>, (Pointer, Pointer)>,
    name: Seq<char>,
) -> Result<(Pointer, Pointer), DecodeError> {
    if procedures.contains_key(name) {
        Ok(procedures[name])
    } else {
        Err(DecodeError::UndefinedProcedure)
    }
}

/// The instruction that a line of two tokens spells.
///
/// A `Proc` line becomes the jump that skips the procedure, a `Call` line a
/// call of the line behind the `Proc` line, a `label` line a no-op.
pub open spec fn decode_with_operand(
    mnemonic: Seq<char>,
    operand: Seq<char>,
    labels: Map<Seq<char>, Pointer>,
    procedures: Map<Seq<char>, (Pointer, Pointer)>,
) -> Result<Instruction, DecodeError> {
    if mnemonic == "Push"@ {
        match decode_value(operand) {
            Ok(v) => Ok(Instruction::Push(v)),
            Err(e) => Err(e),
        }
    } else if mnemonic == "Jump"@ {
        match decode_label(labels, operand) {
            Ok(t) => Ok(Instruction::Jump(t)),
            Err(e) => Err(e),
        }
    } else if mnemonic == "JE"@ {
        match decode_label(labels, operand) {
            Ok(t) => Ok(Instruction::JE(t)),
            Err(e) => Err(e),
        }
    } else if mnemonic == "JNE"@ {
        match decode_label(labels, operand) {
            Ok(t) => Ok(Instruction::JNE(t)),
            Err(e) => Err(e),
        }
    } else if mnemonic == "JGE"@ {
        match decode_label(labels, operand) {
            Ok(t) => Ok(Instruction::JGE(t)),
            Err(e) => Err(e),
        }
    } else if mnemonic == "JLE"@ {
        match decode_label(labels, operand) {
            Ok(t) => Ok(Instruction::JLE(t)),
            Err(e) => Err(e),
        }
    } else if mnemonic == "JGT"@ {
        match decode_label(labels, operand) {
            Ok(t) => Ok(Instruction::JGT(t)),
            Err(e) => Err(e),
        }
    } else if mnemonic == "JLT"@ {
        match decode_label(labels, operand) {
            Ok(t) => Ok(Instruction::JLT(t)),
            Err(e) => Err(e),
        }
    } else if mnemonic == "Get"@ {
        match decode_offset(operand) {
            Ok(i) => Ok(Instruction::Get(i)),
            Err(e) => Err(e),
        }
    } else if mnemonic == "Set"@ {
        match decode_offset(operand) {
            Ok(i) => Ok(Instruction::SetSlot(i)),
            Err(e) => Err(e),
        }
    } else if mnemonic == "GetArg"@ {
        match decode_offset(operand) {
            Ok(i) => Ok(Instruction::GetArg(i)),
            Err(e) => Err(e),
        }
    } else if mnemonic == "SetArg"@ {
        match decode_offset(operand) {
            Ok(i) => Ok(Instruction::SetArg(i)),
            Err(e) => Err(e),
        }
    } else if mnemonic == "Proc"@ {
        match decode_procedure(procedures, operand) {
            Ok(span) => Ok(Instruction::Jump(span.1)),
            Err(e) => Err(e),
        }
    } else if mnemonic == "Call"@ {
        match decode_procedure(procedures, operand) {
            Ok(span) => Ok(Instruction::Call((span.0 + 1) as usize)),
            Err(e) => Err(e),
        }
    } else if mnemonic == "label"@ {
        Ok(Instruction::Noop)
    } else {
        Err(DecodeError::InvalidInstruction)
    }
}

/// The instruction that a line spells, given the labels and procedures of
/// the source it stands in.
pub open spec fn decode(
    line: Seq<Seq<char>>,
    labels: Map<Seq<char>, Pointer>,
    procedures: Map<Seq<char>, (Pointer, Pointer)>,
) -> Result<Instruction, DecodeError> {
    if line.len() == 1 {
        decode_bare(line[0])
    } else if line.len() == 2 {
        decode_with_operand(line[0], line[1], labels, procedures)
    } else {
        Err(DecodeError::InvalidInstruction)
    }
}

/// The label that a line declares, paired with `target`, the address it is
/// to stand for; `None` where the line declares no label.
pub fn find_label<'a>(target: Pointer, line: &[&'a str]) -> (label: Option<(&'a str, Pointer)>)
    ensures
        match label {
            Some((name, address)) => is_label_line(line.deep_view()) && name@
                == line.deep_view()[1] && address == target,
            None => !is_label_line(line.deep_view()),
        },
{
    if line.len() == 2 && same_text(line[0], "label") {
        Some((line[1], target))
    } else {
        None
    }
}

/// Collects the labels of a source.
pub fn find_labels(lines: &[Vec<&str>]) -> (labels: Labels)
    ensures
        labels@ == label_map(lines.deep_view()),
{
    let ghost source = lines.deep_view();
    let mut labels: Labels = Labels::new();
    let mut i: usize = 0;
    while i < lines.len()
        invariant
            i <= lines@.len(),
            source == lines.deep_view(),
            labels@ == label_map(source.take(i as int)),
        decreases lines@.len() - i,
    {
        assert(source.take(i + 1).drop_last() =~= source.take(i as int));
        assert(source.take(i + 1).last() == lines@[i as int].deep_view());
        match find_label(i + 1, lines[i].as_slice()) {
            Some((name, address)) => {
                labels.insert(name, address);
            },
            None => {},
        }
        i = i + 1;
    }
    assert(source.take(i as int) =~= source);
    labels
}

/// The instruction that one line spells.
pub fn parse_instruction(line: &[&str], labels: &Labels, procedures: &Procedures) -> (r: Result<
    Instruction,
    DecodeError,
>)
    requires
        procedures.wf(),
    ensures
        r == decode(line.deep_view(), labels@, procedures@),
{
    proof {
        procedures.wf_orders_spans();
    }
    if line.len() == 1 {
        let mnemonic: &str = line[0];
        if same_text(mnemonic, "Pop") {
            Ok(Instruction::Pop)
        } else if same_text(mnemonic, "Add") {
            Ok(Instruction::Add)
        } else if same_text(mnemonic, "Sub") {
            Ok(Instruction::Sub)
        } else if same_text(mnemonic, "Mul") {
            Ok(Instruction::Mul)
        } else if same_text(mnemonic, "Div") {
            Ok(Instruction::Div)
        } else if same_text(mnemonic, "Incr") {
            Ok(Instruction::Incr)
        } else if same_text(mnemonic, "Decr") {
            Ok(Instruction::Decr)
        } else if same_text(mnemonic, "Print") {
            Ok(Instruction::Print)
        } else if same_text(mnemonic, "PrintChar") {
            Ok(Instruction::PrintChar)
        } else if same_text(mnemonic, "PrintStack") {
            Ok(Instruction::PrintStack)
        } else if same_text(mnemonic, "Ret") {
            Ok(Instruction::Ret)
        } else if same_text(mnemonic, "End") {
            Ok(Instruction::Noop)
        } else {
            Err(DecodeError::InvalidInstruction)
        }
    } else if line.len() == 2 {
        let mnemonic: &str = line[0];
        let operand: &str = line[1];
        if same_text(mnemonic, "Push") {
            match parse_signed(operand) {
                Some(v) => Ok(Instruction::Push(v)),
                None => Err(DecodeError::InvalidOperand),
            }
        } else if same_text(mnemonic, "Jump") {
            match labels.get(operand) {
                Some(t) => Ok(Instruction::Jump(t)),
                None => Err(DecodeError::UndefinedLabel),
            }
        } else if same_text(mnemonic, "JE") {
            match labels.get(operand) {
                Some(t) => Ok(Instruction::JE(t)),
                None => Err(DecodeError::UndefinedLabel),
            }
        } else if same_text(mnemonic, "JNE") {
            match labels.get(operand) {
                Some(t) => Ok(Instruction::JNE(t)),
                None => Err(DecodeError::UndefinedLabel),
            }
        } else if same_text(mnemonic, "JGE") {
            match labels.get(operand) {
                Some(t) => Ok(Instruction::JGE(t)),
                None => Err(DecodeError::UndefinedLabel),
            }
        } else if same_text(mnemonic, "JLE") {
            match labels.get(operand) {
                Some(t) => Ok(Instruction::JLE(t)),
                None => Err(DecodeError::UndefinedLabel),
            }
        } else if same_text(mnemonic, "JGT") {
            match labels.get(operand) {
                Some(t) => Ok(Instruction::JGT(t)),
                None => Err(DecodeError::UndefinedLabel),
            }
        } else if same_text(mnemonic, "JLT") {
            match labels.get(operand) {
                Some(t) => Ok(Instruction::JLT(t)),
                None => Err(DecodeError::UndefinedLabel),
            }
        } else if same_text(mnemonic, "Get") {
            match parse_index(operand) {
                Some(i) => Ok(Instruction::Get(i)),
                None => Err(DecodeError::InvalidOperand),
            }
        } else if same_text(mnemonic, "Set") {
            match parse_index(operand) {
                Some(i) => Ok(Instruction::SetSlot(i)),
                None => Err(DecodeError::InvalidOperand),
            }
        } else if same_text(mnemonic, "GetArg") {
            match parse_index(operand) {
                Some(i) => Ok(Instruction::GetArg(i)),
                None => Err(DecodeError::InvalidOperand),
            }
        } else if same_text(mnemonic, "SetArg") {
            match parse_index(operand) {
                Some(i) => Ok(Instruction::SetArg(i)),
                None => Err(DecodeError::InvalidOperand),
            }
        } else if same_text(mnemonic, "Proc") {
            match procedures.get(operand) {
                Some(span) => Ok(Instruction::Jump(span.1)),
                None => Err(DecodeError::UndefinedProcedure),
            }
        } else if same_text(mnemonic, "Call") {
            match procedures.get(operand) {
                Some(span) => Ok(Instruction::Call(span.0 + 1)),
                None => Err(DecodeError::UndefinedProcedure),
            }
        } else if same_text(mnemonic, "label") {
            Ok(Instruction::Noop)
        } else {
            Err(DecodeError::InvalidInstruction)
        }
    } else {
        Err(DecodeError::InvalidInstruction)
    }
}

/// Whether the line declares a procedure.
fn declares_procedure(line: &[&str]) -> (b: bool)
    ensures
        b == is_proc_line(line.deep_view()),
{
    line.len() == 2 && same_text(line[0], "Proc")
}

/// Whether the line ends a procedure.
fn ends_procedure(line: &[&str]) -> (b: bool)
    ensures
        b == is_end_line(line.deep_view()),
{
    line.len() == 1 && same_text(line[0], "End")
}

/// Where no line from `from` up to `end` is an `End` line, and `end` is one
/// or is the end of the source, `end` is the next `End` seen from `from`.
proof fn next_end_found(lines: Seq<Seq<Seq<char>>>, from: int, end: int)
    requires
        0 <= from <= end <= lines.len(),
        forall|j: int| from <= j < end ==> !is_end_line(#[trigger] lines[j]),
        end == lines.len() || is_end_line(lines[end]),
    ensures
        next_end(lines, from) == end,
    decreases end - from,
{
    if from < end {
        next_end_found(lines, from + 1, end);
    }
}

/// The lines between a `Proc` line and the next `End` line, and that `End`
/// line itself, lie inside a procedure.
proof fn body_is_inside(lines: Seq<Seq<Seq<char>>>, start: int, j: int)
    requires
        0 <= start < j <= lines.len(),
        is_proc_line(lines[start]),
        forall|k: int| start < k < j ==> !is_end_line(#[trigger] lines[k]),
    ensures
        inside_procedure(lines, j),
    decreases j - start,
{
    if j > start + 1 {
        body_is_inside(lines, start, j - 1);
    }
}

/// Lines that open no procedure add nothing to the map.
proof fn procedure_map_unchanged(lines: Seq<Seq<Seq<char>>>, from: int, to: int)
    requires
        0 <= from <= to,
        forall|j: int| from <= j < to ==> !opens_procedure(lines, j),
    ensures
        procedure_map(lines, to) == procedure_map(lines, from),
    decreases to - from,
{
    if from < to {
        procedure_map_unchanged(lines, from, to - 1);
    }
}

/// Collects the procedures of a source, or finds a `Proc` line that no `End`
/// line follows.
pub fn find_procedures(lines: &[Vec<&str>]) -> (r: Result<Procedures, DecodeError>)
    ensures
        match r {
            Ok(procedures) => procedures.wf() && procedures_of(lines.deep_view()) == Ok::<
                Map<Seq<char>, (Pointer, Pointer)>,
                DecodeError,
            >(procedures@),
            Err(e) => procedures_of(lines.deep_view()) == Err::<
                Map<Seq<char>, (Pointer, Pointer)>,
                DecodeError,
            >(e),
        },
{
    let ghost source = lines.deep_view();
    let n: usize = lines.len();
    let mut procedures = Procedures::new();
    let mut ip: usize = 0;
    while ip < n
        invariant
            n == lines@.len(),
            source == lines.deep_view(),
            ip <= n,
            procedures.wf(),
            procedures@ == procedure_map(source, ip as int),
            !inside_procedure(source, ip as int),
            forall|i: int|
                0 <= i < ip && is_proc_line(#[trigger] source[i]) ==> next_end(source, i) < n,
        decreases n - ip,
    {
        let line: &[&str] = lines[ip].as_slice();
        if declares_procedure(line) {
            let start: usize = ip;
            let mut end: usize = start + 1;
            while end < n && !ends_procedure(lines[end].as_slice())
                invariant
                    n == lines@.len(),
                    source == lines.deep_view(),
                    start < end <= n,
                    forall|j: int| start < j < end ==> !is_end_line(#[trigger] source[j]),
                decreases n - end,
            {
                end = end + 1;
            }
            proof {
                next_end_found(source, start + 1, end as int);
                assert(next_end(source, start as int) == end);
            }
            if end == n {
                return Err(DecodeError::UnterminatedProcedure);
            }
            procedures.insert(line[1], start, end + 1);
            proof {
                assert(opens_procedure(source, start as int));
                assert forall|j: int| start < j < end + 1 implies !opens_procedure(source, j) by {
                    body_is_inside(source, start as int, j);
                }
                procedure_map_unchanged(source, start + 1, end + 1);
                assert forall|i: int|
                    0 <= i < end + 1 && is_proc_line(#[trigger] source[i]) implies next_end(
                    source,
                    i,
                ) < n by {
                    if i >= start {
                        next_end_found(source, i, end as int);
                    }
                }
            }
            ip = end + 1;
        } else {
            ip = ip + 1;
        }
    }
    Ok(procedures)
}

/// The instructions that the first `n` lines spell, or the error of the
/// first line among them that spells none.
pub open spec fn decode_lines(
    lines: Seq<Seq<Seq<char>>>,
    labels: Map<Seq<char>, Pointer>,
    procedures: Map<Seq<char>, (Pointer, Pointer)>,
    n: int,
) -> Result<Seq<Instruction>, DecodeError>
    decreases n,
{
    if n <= 0 {
        Ok(Seq::empty())
    } else {
        match decode_lines(lines, labels, procedures, n - 1) {
            Err(e) => Err(e),
            Ok(program) => match decode(lines[n - 1], labels, procedures) {
                Ok(instruction) => Ok(program.push(instruction)),
                Err(e) => Err(e),
            },
        }
    }
}

/// The program that a source spells: one instruction per line, in the order
/// of the lines. A source with a procedure that does not end spells none;
/// otherwise the first line that cannot be decoded decides the error.
pub open spec fn assembly(lines: Seq<Seq<Seq<char>>>) -> Result<Seq<Instruction>, DecodeError> {
    match procedures_of(lines) {
        Err(e) => Err(e),
        Ok(procedures) => decode_lines(lines, label_map(lines), procedures, lines.len() as int),
    }
}

/// Turns a source into a program.
pub fn assemble(lines: &[Vec<&str>]) -> (r: Result<Vec<Instruction>, DecodeError>)
    ensures
        match r {
            Ok(program) => assembly(lines.deep_view()) == Ok::<Seq<Instruction>, DecodeError>(
                program@,
            ),
            Err(e) => assembly(lines.deep_view()) == Err::<Seq<Instruction>, DecodeError>(e),
        },
{
    let ghost source = lines.deep_view();
    let labels: Labels = find_labels(lines);
    let procedures: Procedures = match find_procedures(lines) {
        Ok(procedures) => procedures,
        Err(e) => {
            return Err(e);
        },
    };
    let mut program: Vec<Instruction> = Vec::new();
    let mut i: usize = 0;
    while i < lines.len()
        invariant
            i <= lines@.len(),
            source == lines.deep_view(),
            procedures.wf(),
            labels@ == label_map(source),
            procedures_of(source) == Ok::<Map<Seq<char>, (Pointer, Pointer)>, DecodeError>(
                procedures@,
            ),
            decode_lines(source, labels@, procedures@, i as int) == Ok::<
                Seq<Instruction>,
                DecodeError,
            >(program@),
        decreases lines@.len() - i,
    {
        match parse_instruction(lines[i].as_slice(), &labels, &procedures) {
            Ok(instruction) => {
                program.push(instruction);
            },
            Err(e) => {
                proof {
                    first_error_decides(source, labels@, procedures@, i + 1, source.len() as int);
                }
                return Err(e);
            },
        }
        i = i + 1;
    }
    Ok(program)
}

/// Once a line has failed, the lines behind it change nothing.
proof fn first_error_decides(
    lines: Seq<Seq<Seq<char>>>,
    labels: Map<Seq<char>, Pointer>,
    procedures: Map<Seq<char>, (Pointer, Pointer)>,
    n: int,
    m: int,
)
    requires
        n <= m,
        decode_lines(lines, labels, procedures, n) is Err,
    ensures
        decode_lines(lines, labels, procedures, m) == decode_lines(lines, labels, procedures, n),
    decreases m - n,
{
    if n < m {
        first_error_decides(lines, labels, procedures, n, m - 1);
    }
}

/// The line is part of the program: it is neither blank nor a comment, which
/// is a line whose first token is `--`.
pub open spec fn is_code_line(line: Seq<Seq<char>>) -> bool {
    line.len() > 0 && line[0] != "--"@
}

/// The lines of a text that are part of the program, in their order.
pub open spec fn code_of(lines: Seq<Seq<Seq<char>>>) -> Seq<Seq<Seq<char>>>
    decreases lines.len(),
{
    if lines.len() == 0 {
        Seq::empty()
    } else {
        let before = code_of(lines.drop_last());
        if is_code_line(lines.last()) {
            before.push(lines.last())
        } else {
            before
        }
    }
}

/// A copy of a line.
fn copy_line<'a>(line: &[&'a str]) -> (copy: Vec<&'a str>)
    ensures
        copy@ == line@,
{
    let mut copy: Vec<&'a str> = Vec::new();
    let mut i: usize = 0;
    while i < line.len()
        invariant
            i <= line@.len(),
            copy@ == line@.take(i as int),
        decreases line@.len() - i,
    {
        copy.push(line[i]);
        assert(copy@ =~= line@.take(i + 1));
        i = i + 1;
    }
    assert(line@.take(i as int) =~= line@);
    copy
}

/// Drops blank lines and comments from a tokenized text. What is left is the
/// source that the assembler takes.
pub fn code_lines<'a>(lines: &[Vec<&'a str>]) -> (kept: Vec<Vec<&'a str>>)
    ensures
        kept.deep_view() == code_of(lines.deep_view()),
{
    let ghost text = lines.deep_view();
    let mut kept: Vec<Vec<&'a str>> = Vec::new();
    let mut i: usize = 0;
    assert(kept.deep_view() =~= Seq::<Seq<Seq<char>>>::empty());
    while i < lines.len()
        invariant
            i <= lines@.len(),
            text == lines.deep_view(),
            kept.deep_view() == code_of(text.take(i as int)),
        decreases lines@.len() - i,
    {
        let line: &[&'a str] = lines[i].as_slice();
        assert(text.take(i + 1).drop_last() =~= text.take(i as int));
        assert(text.take(i + 1).last() == line.deep_view());
        if line.len() > 0 && !same_text(line[0], "--") {
            let ghost before = kept.deep_view();
            let copy: Vec<&'a str> = copy_line(line);
            assert(copy.deep_view() =~= line.deep_view());
            kept.push(copy);
            assert(kept.deep_view() =~= before.push(line.deep_view()));
        }
        i = i + 1;
    }
    assert(text.take(i as int) =~= text);
    kept
}

} // verus!
