use stack_vm::assembler::{
    assemble, code_lines, find_label, find_labels, find_procedures, parse_instruction,
    DecodeError,
};
use stack_vm::instruction::Instruction;
use stack_vm::machine::{interpret, Output};
use stack_vm::semantics::Status;
use stack_vm::tables::{Labels, Procedures};

fn tokens(text: &str) -> Vec<Vec<&str>> {
    text.split('\n').map(|line| line.split_whitespace().collect()).collect()
}

fn source(text: &str) -> Vec<Vec<&str>> {
    code_lines(&tokens(text))
}

fn decode(line: &[&str]) -> Result<Instruction, DecodeError> {
    let mut labels = Labels::new();
    labels.insert("top", 4);
    labels.insert("end", 11);
    let mut procedures = Procedures::new();
    procedures.insert("double", 20, 26);
    parse_instruction(line, &labels, &procedures)
}

#[test]
fn find_label_recognizes_the_exact_shape() {
    assert_eq!(find_label(3, &["label", "loop"]), Some(("loop", 3)));
    assert_eq!(find_label(3, &["label"]), None);
    assert_eq!(find_label(3, &["label", "a", "b"]), None);
    assert_eq!(find_label(3, &["Label", "loop"]), None);
    assert_eq!(find_label(3, &["Jump", "loop"]), None);
    assert_eq!(find_label(3, &[]), None);
}

#[test]
fn labels_stand_for_the_following_line() {
    let lines = source("Push 1\nlabel a\nPop\nlabel b");
    let labels = find_labels(&lines);
    assert_eq!(labels.get("a"), Some(2));
    assert_eq!(labels.get("b"), Some(4));
    assert_eq!(labels.get("c"), None);
}

#[test]
fn a_label_declared_twice_keeps_the_later_line() {
    let lines = source("label a\nPop\nlabel a\nPop");
    let labels = find_labels(&lines);
    assert_eq!(labels.get("a"), Some(3));
}

#[test]
fn procedures_span_from_proc_to_the_next_end() {
    let lines = source("Push 1\nProc f\nIncr\nRet\nEnd\nProc g\nEnd\nPop");
    let procedures = find_procedures(&lines).unwrap();
    assert_eq!(procedures.get("f"), Some((1, 5)));
    assert_eq!(procedures.get("g"), Some((5, 7)));
    assert_eq!(procedures.get("h"), None);
}

#[test]
fn a_proc_line_inside_a_body_registers_nothing() {
    let lines = source("Proc a\nProc b\nEnd\nEnd");
    let procedures = find_procedures(&lines).unwrap();
    assert_eq!(procedures.get("a"), Some((0, 3)));
    assert_eq!(procedures.get("b"), None);
    assert_eq!(assemble(&lines), Err(DecodeError::UndefinedProcedure));
}

#[test]
fn a_procedure_declared_twice_keeps_the_later_one() {
    let lines = source("Proc f\nEnd\nProc f\nRet\nEnd");
    let procedures = find_procedures(&lines).unwrap();
    assert_eq!(procedures.get("f"), Some((2, 5)));
}

#[test]
fn a_procedure_without_end_is_an_error() {
    let lines = source("Push 1\nProc f\nRet");
    assert!(matches!(find_procedures(&lines), Err(DecodeError::UnterminatedProcedure)));
    assert_eq!(assemble(&lines), Err(DecodeError::UnterminatedProcedure));
    let lines = source("Proc f\nEnd\nProc g");
    assert!(matches!(find_procedures(&lines), Err(DecodeError::UnterminatedProcedure)));
}

#[test]
fn an_end_line_with_operands_ends_nothing() {
    let lines = source("Proc f\nEnd now\nRet");
    assert!(matches!(find_procedures(&lines), Err(DecodeError::UnterminatedProcedure)));
}

#[test]
fn instructions_without_operand_decode() {
    assert_eq!(decode(&["Pop"]), Ok(Instruction::Pop));
    assert_eq!(decode(&["Add"]), Ok(Instruction::Add));
    assert_eq!(decode(&["Sub"]), Ok(Instruction::Sub));
    assert_eq!(decode(&["Mul"]), Ok(Instruction::Mul));
    assert_eq!(decode(&["Div"]), Ok(Instruction::Div));
    assert_eq!(decode(&["Incr"]), Ok(Instruction::Incr));
    assert_eq!(decode(&["Decr"]), Ok(Instruction::Decr));
    assert_eq!(decode(&["Print"]), Ok(Instruction::Print));
    assert_eq!(decode(&["PrintChar"]), Ok(Instruction::PrintChar));
    assert_eq!(decode(&["PrintStack"]), Ok(Instruction::PrintStack));
    assert_eq!(decode(&["Ret"]), Ok(Instruction::Ret));
    assert_eq!(decode(&["End"]), Ok(Instruction::Noop));
}

#[test]
fn push_takes_a_signed_integer() {
    assert_eq!(decode(&["Push", "5"]), Ok(Instruction::Push(5)));
    assert_eq!(decode(&["Push", "-17"]), Ok(Instruction::Push(-17)));
    assert_eq!(decode(&["Push", "+17"]), Ok(Instruction::Push(17)));
    assert_eq!(decode(&["Push", "007"]), Ok(Instruction::Push(7)));
    assert_eq!(decode(&["Push", "-0"]), Ok(Instruction::Push(0)));
    assert_eq!(decode(&["Push", "five"]), Err(DecodeError::InvalidOperand));
    assert_eq!(decode(&["Push", "5x"]), Err(DecodeError::InvalidOperand));
    assert_eq!(decode(&["Push", "-"]), Err(DecodeError::InvalidOperand));
    assert_eq!(decode(&["Push", "1.5"]), Err(DecodeError::InvalidOperand));
}

#[test]
fn slot_instructions_take_an_index() {
    assert_eq!(decode(&["Get", "0"]), Ok(Instruction::Get(0)));
    assert_eq!(decode(&["Set", "3"]), Ok(Instruction::SetSlot(3)));
    assert_eq!(decode(&["GetArg", "12"]), Ok(Instruction::GetArg(12)));
    assert_eq!(decode(&["SetArg", "+1"]), Ok(Instruction::SetArg(1)));
    assert_eq!(decode(&["Get", "-1"]), Err(DecodeError::InvalidOperand));
    assert_eq!(decode(&["Set", "-0"]), Err(DecodeError::InvalidOperand));
    assert_eq!(decode(&["GetArg", "x"]), Err(DecodeError::InvalidOperand));
    assert_eq!(decode(&["SetArg", ""]), Err(DecodeError::InvalidOperand));
}

#[test]
fn jumps_resolve_their_label() {
    assert_eq!(decode(&["Jump", "top"]), Ok(Instruction::Jump(4)));
    assert_eq!(decode(&["JE", "end"]), Ok(Instruction::JE(11)));
    assert_eq!(decode(&["JNE", "end"]), Ok(Instruction::JNE(11)));
    assert_eq!(decode(&["JGT", "top"]), Ok(Instruction::JGT(4)));
    assert_eq!(decode(&["JLT", "top"]), Ok(Instruction::JLT(4)));
    assert_eq!(decode(&["JGE", "end"]), Ok(Instruction::JGE(11)));
    assert_eq!(decode(&["JLE", "end"]), Ok(Instruction::JLE(11)));
    assert_eq!(decode(&["Jump", "nowhere"]), Err(DecodeError::UndefinedLabel));
    assert_eq!(decode(&["JLE", "double"]), Err(DecodeError::UndefinedLabel));
}

#[test]
fn proc_and_call_resolve_their_procedure() {
    assert_eq!(decode(&["Proc", "double"]), Ok(Instruction::Jump(26)));
    assert_eq!(decode(&["Call", "double"]), Ok(Instruction::Call(21)));
    assert_eq!(decode(&["Proc", "triple"]), Err(DecodeError::UndefinedProcedure));
    assert_eq!(decode(&["Call", "top"]), Err(DecodeError::UndefinedProcedure));
}

#[test]
fn label_lines_decode_to_noop() {
    assert_eq!(decode(&["label", "anything"]), Ok(Instruction::Noop));
}

#[test]
fn other_shapes_are_invalid() {
    assert_eq!(decode(&[]), Err(DecodeError::InvalidInstruction));
    assert_eq!(decode(&["Halt"]), Err(DecodeError::InvalidInstruction));
    assert_eq!(decode(&["push", "1"]), Err(DecodeError::InvalidInstruction));
    assert_eq!(decode(&["Push"]), Err(DecodeError::InvalidInstruction));
    assert_eq!(decode(&["Pop", "1"]), Err(DecodeError::InvalidInstruction));
    assert_eq!(decode(&["Push", "1", "2"]), Err(DecodeError::InvalidInstruction));
    assert_eq!(decode(&["label"]), Err(DecodeError::InvalidInstruction));
    assert_eq!(decode(&["label", "a", "b"]), Err(DecodeError::InvalidInstruction));
    assert_eq!(decode(&["End", "x"]), Err(DecodeError::InvalidInstruction));
    assert_eq!(decode(&["PrintC"]), Err(DecodeError::InvalidInstruction));
    assert_eq!(decode(&["Pöp"]), Err(DecodeError::InvalidInstruction));
}

#[test]
fn comments_and_blank_lines_are_dropped() {
    let lines = tokens("-- a comment\n\nPush 1\n   \n  -- indented\nPop -- not a comment line\n--x 1");
    let kept = code_lines(&lines);
    assert_eq!(
        kept,
        vec![vec!["Push", "1"], vec!["Pop", "--", "not", "a", "comment", "line"], vec!["--x", "1"]]
    );
    assert_eq!(code_lines(&[]), Vec::<Vec<&str>>::new());
}

#[test]
fn assemble_keeps_one_instruction_per_line() {
    let lines = source(
        "Push 2\n\
         Call double\n\
         Print\n\
         Jump done\n\
         Proc double\n\
         GetArg 0\n\
         GetArg 0\n\
         Add\n\
         SetArg 0\n\
         Pop\n\
         Ret\n\
         End\n\
         label done",
    );
    assert_eq!(
        assemble(&lines),
        Ok(vec![
            Instruction::Push(2),
            Instruction::Call(5),
            Instruction::Print,
            Instruction::Jump(13),
            Instruction::Jump(12),
            Instruction::GetArg(0),
            Instruction::GetArg(0),
            Instruction::Add,
            Instruction::SetArg(0),
            Instruction::Pop,
            Instruction::Ret,
            Instruction::Noop,
            Instruction::Noop,
        ])
    );
}

#[test]
fn assemble_reports_the_first_line_that_fails() {
    let lines = source("Push 1\nJump nowhere\nBogus");
    assert_eq!(assemble(&lines), Err(DecodeError::UndefinedLabel));
    let lines = source("Push 1\nBogus\nJump nowhere");
    assert_eq!(assemble(&lines), Err(DecodeError::InvalidInstruction));
    let lines = source("Push x\nProc f");
    assert_eq!(assemble(&lines), Err(DecodeError::UnterminatedProcedure));
    let lines = source("Call f\nPush 1");
    assert_eq!(assemble(&lines), Err(DecodeError::UndefinedProcedure));
    let lines = source("Get -1");
    assert_eq!(assemble(&lines), Err(DecodeError::InvalidOperand));
}

#[test]
fn assemble_of_nothing_is_the_empty_program() {
    assert_eq!(assemble(&[]), Ok(vec![]));
}

#[test]
fn an_assembled_procedure_doubles_its_argument() {
    let lines = source(
        "-- doubles the value on top of the stack\n\
         Proc double\n\
         GetArg 0\n\
         GetArg 0\n\
         Add\n\
         SetArg 0\n\
         Pop\n\
         Ret\n\
         End\n\
         \n\
         Push 21\n\
         Call double\n\
         Print",
    );
    let program = assemble(&lines).unwrap();
    let report = interpret(&program, 1000);
    assert_eq!(report.status, Status::Halted);
    assert_eq!(report.outputs, vec![Output::Number(42)]);
}

#[test]
fn an_assembled_loop_counts_down() {
    let lines = source(
        "Push 3\n\
         label again\n\
         Print\n\
         Decr\n\
         JE out\n\
         Jump again\n\
         label out\n\
         Push 33\n\
         PrintChar\n\
         PrintStack",
    );
    let program = assemble(&lines).unwrap();
    let report = interpret(&program, 1000);
    assert_eq!(report.status, Status::Halted);
    assert_eq!(
        report.outputs,
        vec![
            Output::Number(3),
            Output::Number(2),
            Output::Number(1),
            Output::Character('!'),
            Output::StackDump(vec![33]),
        ]
    );
}

#[test]
fn a_label_on_the_last_line_points_past_the_end() {
    let lines = source("Jump end\nPush 1\nPrint\nlabel end");
    let program = assemble(&lines).unwrap();
    assert_eq!(program[0], Instruction::Jump(4));
    let report = interpret(&program, 10);
    assert_eq!(report.status, Status::Halted);
    assert_eq!(report.outputs, vec![]);
}
