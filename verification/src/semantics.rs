//! What the machine does, stated as mathematics.
//!
//! A machine state is an instruction pointer, an operand stack and a call
//! stack. [`effect`] says what one instruction does to a state whose pointer
//! already stands behind that instruction, [`transition`] adds the fetch, and
//! [`execution`] chains transitions. The executable machine is verified
//! against these functions.

use vstd::prelude::*;

use crate::instruction::{Instruction, Pointer};

verus! {

/// One active procedure call.
#[derive(Debug, Clone, Copy, PartialEq, Eq, Structural)]
pub struct StackFrame {
    /// The length of the operand stack at the moment of the call.
    pub stack_offset: Pointer,
    /// Where execution resumes when the procedure returns.
    pub return_ip: Pointer,
}

/// Why a run was aborted. Every fault is final: the machine does not move
/// past the instruction that raised it.
#[derive(Debug, Clone, Copy, PartialEq, Eq, Structural)]
pub enum Fault {
    /// The instruction needs more operands than the stack holds.
    EmptyStack,
    /// A frame-relative slot lies outside the operand stack.
    StackIndexOutOfBounds,
    /// `Ret` outside any procedure.
    EmptyCallStack,
    /// `GetArg` or `SetArg` outside any procedure.
    NoActiveFrame,
    /// `Div` with a zero divisor.
    DivisionByZero,
    /// The result of an arithmetic instruction is not a machine integer.
    ArithmeticOverflow,
}

/// What a printing instruction hands to the outside.
pub enum Emission {
    /// `Print`: the top of the stack, to be written in decimal.
    Number(isize),
    /// `PrintChar`: the character whose code is the low byte of the top.
    Character(char),
    /// `PrintStack`: the whole operand stack, bottom first.
    StackDump(Seq<isize>),
}

/// The state of a machine between two instructions.
pub struct MachineState {
    pub pointer: Pointer,
    pub stack: Seq<isize>,
    pub frames: Seq<StackFrame>,
}

/// The state after one instruction, and what the instruction printed.
pub struct Effect {
    pub state: MachineState,
    pub output: Option<Emission>,
}

impl MachineState {
    /// The state in which every run starts.
    pub open spec fn initial() -> MachineState {
        MachineState { pointer: 0, stack: Seq::empty(), frames: Seq::empty() }
    }

    /// The stack is one that a machine can hold.
    pub open spec fn wf(self) -> bool {
        self.stack.len() <= usize::MAX
    }

    /// The stack slot that offset 0 of `Get` and `SetSlot` names: the base of
    /// the innermost frame, or the bottom of the stack outside any procedure.
    pub open spec fn frame_base(self) -> int {
        if self.frames.len() == 0 {
            0
        } else {
            self.frames.last().stack_offset as int
        }
    }

    /// The slot that `Get(i)` and `SetSlot(i)` name.
    pub open spec fn local_slot(self, i: Pointer) -> int {
        self.frame_base() + i
    }

    /// The slot that `GetArg(i)` and `SetArg(i)` name: argument 0 is the last
    /// value that was on the stack when the procedure was called.
    pub open spec fn argument_slot(self, i: Pointer) -> int {
        self.frame_base() - 1 - i
    }

    /// `slot` is a slot of the operand stack.
    pub open spec fn has_slot(self, slot: int) -> bool {
        0 <= slot < self.stack.len()
    }

    /// This state with another operand stack.
    pub open spec fn with_stack(self, stack: Seq<isize>) -> MachineState {
        MachineState { stack, ..self }
    }

    /// This state with the pointer moved to `target`.
    pub open spec fn at(self, target: Pointer) -> MachineState {
        MachineState { pointer: target, ..self }
    }
}

impl Effect {
    /// A step that prints nothing.
    pub open spec fn silent(state: MachineState) -> Effect {
        Effect { state, output: None }
    }

    /// A step that leaves the state alone and prints.
    pub open spec fn printing(state: MachineState, emission: Emission) -> Effect {
        Effect { state, output: Some(emission) }
    }
}

/// `v` is a value that a stack slot can hold.
pub open spec fn fits(v: int) -> bool {
    isize::MIN <= v <= isize::MAX
}

/// Integer division that rounds toward zero.
pub open spec fn quotient(dividend: int, divisor: int) -> int
    recommends
        divisor != 0,
{
    let magnitude = (if dividend < 0 { -dividend } else { dividend })
        / (if divisor < 0 { -divisor } else { divisor });
    if (dividend < 0) == (divisor < 0) {
        magnitude
    } else {
        -magnitude
    }
}

/// The character that `PrintChar` prints for `v`: the one whose code is `v`
/// reduced to a byte.
pub open spec fn character_of(v: isize) -> char {
    ((v as int) % 256) as char
}

/// What `Add`, `Sub`, `Mul` and `Div` compute from `b` and `a`, where `a` is
/// the top of the stack and `b` the value under it.
pub open spec fn arithmetic(instruction: Instruction, b: int, a: int) -> Result<int, Fault> {
    match instruction {
        Instruction::Add => Ok(a + b),
        Instruction::Sub => Ok(b - a),
        Instruction::Mul => Ok(a * b),
        _ => if a == 0 {
            Err(Fault::DivisionByZero)
        } else {
            Ok(quotient(b, a))
        },
    }
}

/// The two topmost values are replaced by the result of the operation.
pub open spec fn binary(instruction: Instruction, s: MachineState) -> Result<Effect, Fault> {
    let n = s.stack.len() as int;
    if n < 2 {
        Err(Fault::EmptyStack)
    } else {
        match arithmetic(instruction, s.stack[n - 2] as int, s.stack[n - 1] as int) {
            Err(fault) => Err(fault),
            Ok(v) => if fits(v) {
                Ok(Effect::silent(s.with_stack(s.stack.take(n - 2).push(v as isize))))
            } else {
                Err(Fault::ArithmeticOverflow)
            },
        }
    }
}

/// The top of the stack changes by `delta`, in place.
pub open spec fn adjust_top(s: MachineState, delta: int) -> Result<Effect, Fault> {
    let n = s.stack.len() as int;
    if n == 0 {
        Err(Fault::EmptyStack)
    } else if fits(s.stack[n - 1] + delta) {
        Ok(Effect::silent(s.with_stack(s.stack.update(n - 1, (s.stack[n - 1] + delta) as isize))))
    } else {
        Err(Fault::ArithmeticOverflow)
    }
}

/// The test that a conditional jump makes on the top of the stack.
pub open spec fn jump_taken(instruction: Instruction, top: isize) -> bool {
    match instruction {
        Instruction::JE(_) => top == 0,
        Instruction::JNE(_) => top != 0,
        Instruction::JGT(_) => top > 0,
        Instruction::JLT(_) => top < 0,
        Instruction::JGE(_) => top >= 0,
        _ => top <= 0,
    }
}

/// A conditional jump: where the test holds, the tested value is popped and
/// the pointer moves to `target`; where it does not, nothing changes and the
/// value stays.
pub open spec fn branch(instruction: Instruction, target: Pointer, s: MachineState) -> Result<
    Effect,
    Fault,
> {
    if s.stack.len() == 0 {
        Err(Fault::EmptyStack)
    } else if jump_taken(instruction, s.stack.last()) {
        Ok(Effect::silent(s.with_stack(s.stack.drop_last()).at(target)))
    } else {
        Ok(Effect::silent(s))
    }
}

/// The value in `slot` is pushed.
pub open spec fn load(s: MachineState, slot: int) -> Result<Effect, Fault> {
    if s.has_slot(slot) {
        Ok(Effect::silent(s.with_stack(s.stack.push(s.stack[slot]))))
    } else {
        Err(Fault::StackIndexOutOfBounds)
    }
}

/// The top of the stack is copied into `slot`, and stays on the stack.
pub open spec fn store(s: MachineState, slot: int) -> Result<Effect, Fault> {
    if s.stack.len() == 0 {
        Err(Fault::EmptyStack)
    } else if s.has_slot(slot) {
        Ok(Effect::silent(s.with_stack(s.stack.update(slot, s.stack.last()))))
    } else {
        Err(Fault::StackIndexOutOfBounds)
    }
}

/// What `instruction` does to `s`, the state in which the pointer already
/// stands behind the instruction.
///
/// Where several faults apply, the one reported is the first in this order:
/// a missing frame, a missing operand, then a bad slot, a zero divisor or an
/// overflow.
pub open spec fn effect(instruction: Instruction, s: MachineState) -> Result<Effect, Fault> {
    match instruction {
        Instruction::Noop => Ok(Effect::silent(s)),
        Instruction::Push(v) => Ok(Effect::silent(s.with_stack(s.stack.push(v)))),
        Instruction::Pop => if s.stack.len() == 0 {
            Err(Fault::EmptyStack)
        } else {
            Ok(Effect::silent(s.with_stack(s.stack.drop_last())))
        },
        Instruction::Add | Instruction::Sub | Instruction::Mul | Instruction::Div => binary(
            instruction,
            s,
        ),
        Instruction::Incr => adjust_top(s, 1),
        Instruction::Decr => adjust_top(s, -1),
        Instruction::Jump(target) => Ok(Effect::silent(s.at(target))),
        Instruction::JE(target)
        | Instruction::JNE(target)
        | Instruction::JGT(target)
        | Instruction::JLT(target)
        | Instruction::JGE(target)
        | Instruction::JLE(target) => branch(instruction, target, s),
        Instruction::Get(i) => load(s, s.local_slot(i)),
        Instruction::SetSlot(i) => store(s, s.local_slot(i)),
        Instruction::GetArg(i) => if s.frames.len() == 0 {
            Err(Fault::NoActiveFrame)
        } else {
            load(s, s.argument_slot(i))
        },
        Instruction::SetArg(i) => if s.frames.len() == 0 {
            Err(Fault::NoActiveFrame)
        } else {
            store(s, s.argument_slot(i))
        },
        Instruction::Print => if s.stack.len() == 0 {
            Err(Fault::EmptyStack)
        } else {
            Ok(Effect::printing(s, Emission::Number(s.stack.last())))
        },
        Instruction::PrintChar => if s.stack.len() == 0 {
            Err(Fault::EmptyStack)
        } else {
            Ok(Effect::printing(s, Emission::Character(character_of(s.stack.last()))))
        },
        Instruction::PrintStack => Ok(Effect::printing(s, Emission::StackDump(s.stack))),
        Instruction::Call(target) => Ok(
            Effect::silent(
                MachineState {
                    pointer: target,
                    stack: s.stack,
                    frames: s.frames.push(
                        StackFrame { stack_offset: s.stack.len() as usize, return_ip: s.pointer },
                    ),
                },
            ),
        ),
        Instruction::Ret => if s.frames.len() == 0 {
            Err(Fault::EmptyCallStack)
        } else {
            Ok(
                Effect::silent(
                    MachineState {
                        pointer: s.frames.last().return_ip,
                        stack: s.stack,
                        frames: s.frames.drop_last(),
                    },
                ),
            )
        },
    }
}

/// What one turn of the fetch-and-execute loop does.
pub enum Transition {
    /// The pointer stands past the end of the program: the run is over.
    Halted,
    /// One instruction was executed.
    Ran(Effect),
    /// The instruction under the pointer could not be executed.
    Faulted(Fault),
}

/// One turn of the loop: fetch the instruction under the pointer, move the
/// pointer one past it, then execute it. Jump targets are therefore absolute.
pub open spec fn transition(program: Seq<Instruction>, s: MachineState) -> Transition {
    if s.pointer >= program.len() {
        Transition::Halted
    } else {
        match effect(program[s.pointer as int], s.at((s.pointer + 1) as usize)) {
            Ok(e) => Transition::Ran(e),
            Err(fault) => Transition::Faulted(fault),
        }
    }
}

/// How a bounded run ended.
#[derive(Debug, Clone, Copy, PartialEq, Eq, Structural)]
pub enum Status {
    /// The pointer walked past the end of the program.
    Halted,
    /// An instruction raised a fault.
    Faulted(Fault),
    /// The step budget ran out with instructions still to execute.
    OutOfSteps,
}

/// A bounded run: where it stopped, what it printed, and why it stopped.
pub struct Execution {
    pub state: MachineState,
    pub outputs: Seq<Emission>,
    pub status: Status,
}

/// The output of one step as a sequence of zero or one emission.
pub open spec fn emitted(output: Option<Emission>) -> Seq<Emission> {
    match output {
        Some(emission) => seq![emission],
        None => Seq::empty(),
    }
}

/// The run of `program` from `s` that executes at most `steps` instructions.
///
/// A run stops where the program halts or faults; the state it reports is
/// then the one in which that happened. A fault leaves the state as it was
/// before the faulting instruction was fetched. With the budget spent, the
/// run is `Halted` if the pointer stands past the end and `OutOfSteps` if
/// not: the instruction under the pointer is not tried.
pub open spec fn execution(program: Seq<Instruction>, s: MachineState, steps: nat) -> Execution
    decreases steps,
{
    if steps == 0 {
        Execution {
            state: s,
            outputs: Seq::empty(),
            status: if s.pointer >= program.len() {
                Status::Halted
            } else {
                Status::OutOfSteps
            },
        }
    } else {
        match transition(program, s) {
            Transition::Halted => Execution {
                state: s,
                outputs: Seq::empty(),
                status: Status::Halted,
            },
            Transition::Faulted(fault) => Execution {
                state: s,
                outputs: Seq::empty(),
                status: Status::Faulted(fault),
            },
            Transition::Ran(e) => {
                let rest = execution(program, e.state, (steps - 1) as nat);
                Execution {
                    state: rest.state,
                    outputs: emitted(e.output) + rest.outputs,
                    status: rest.status,
                }
            },
        }
    }
}

} // verus!
