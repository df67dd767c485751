//! The execution engine: a machine that runs a program against an operand
//! stack and a call stack.
//!
//! The machine prints nothing itself. A printing instruction hands back an
//! [`Output`], and whoever drives the machine writes it out.

use vstd::prelude::*;

use crate::instruction::{Instruction, Pointer};
use crate::semantics::{
    effect, emitted, execution, transition, Effect, Emission, Fault, MachineState, StackFrame,
    Status, Transition,
};
use crate::stack::Stack;

verus! {

/// What a printing instruction hands to the outside.
#[derive(Debug, PartialEq, Eq)]
pub enum Output {
    /// `Print`: the top of the stack, to be written in decimal.
    Number(isize),
    /// `PrintChar`: the character whose code is the low byte of the top.
    Character(char),
    /// `PrintStack`: the whole operand stack, bottom first.
    StackDump(Vec<isize>),
}

impl View for Output {
    type V = Emission;

    open spec fn view(&self) -> Emission {
        match self {
            Output::Number(v) => Emission::Number(*v),
            Output::Character(c) => Emission::Character(*c),
            Output::StackDump(values) => Emission::StackDump(values@),
        }
    }
}

/// The emission that an optional output stands for.
pub open spec fn printed(output: Option<Output>) -> Option<Emission> {
    match output {
        Some(o) => Some(o@),
        None => None,
    }
}

/// The emissions that a list of outputs stands for, in order.
pub open spec fn emissions(outputs: Seq<Output>) -> Seq<Emission> {
    Seq::new(outputs.len(), |i: int| outputs[i]@)
}

/// What one call of [`Machine::step`] did.
#[derive(Debug, PartialEq, Eq)]
pub enum StepOutcome {
    /// The pointer stands past the end of the program; nothing was executed.
    Halted,
    /// One instruction was executed; this is what it printed, if anything.
    Ran(Option<Output>),
    /// The instruction under the pointer faulted; the machine is unchanged.
    Faulted(Fault),
}

/// The result of a bounded run from the initial state.
#[derive(Debug, PartialEq, Eq)]
pub struct Report {
    /// Everything the program printed, in order.
    pub outputs: Vec<Output>,
    /// Why the run stopped.
    pub status: Status,
}

/// A machine: instruction pointer, operand stack and call stack.
#[derive(Debug, PartialEq, Eq)]
pub struct Machine {
    pub pointer: Pointer,
    pub stack: Stack,
    pub call_stack: Vec<StackFrame>,
}

impl View for Machine {
    type V = MachineState;

    open spec fn view(&self) -> MachineState {
        MachineState { pointer: self.pointer, stack: self.stack@, frames: self.call_stack@ }
    }
}

impl Machine {
    /// A machine at the start of a run: pointer 0, both stacks empty.
    pub fn new() -> (machine: Machine)
        ensures
            machine@ == MachineState::initial(),
    {
        Machine { pointer: 0, stack: Stack::new(), call_stack: Vec::new() }
    }

    /// The base of the innermost frame, or 0 outside any procedure.
    fn frame_base(&self) -> (base: usize)
        ensures
            base == self@.frame_base(),
    {
        let depth: usize = self.call_stack.len();
        if depth == 0 {
            0
        } else {
            self.call_stack[depth - 1].stack_offset
        }
    }

    /// The slot that `Get(i)` and `SetSlot(i)` name, if it is on the stack.
    fn local_slot(&self, i: Pointer) -> (slot: Option<usize>)
        ensures
            match slot {
                Some(k) => k == self@.local_slot(i) && self@.has_slot(k as int),
                None => !self@.has_slot(self@.local_slot(i)),
            },
    {
        let base: usize = self.frame_base();
        let n: usize = self.stack.len();
        match base.checked_add(i) {
            Some(k) => if k < n {
                Some(k)
            } else {
                None
            },
            None => None,
        }
    }

    /// The slot that `GetArg(i)` and `SetArg(i)` name, if it is on the stack.
    fn argument_slot(&self, i: Pointer) -> (slot: Option<usize>)
        ensures
            match slot {
                Some(k) => k == self@.argument_slot(i) && self@.has_slot(k as int),
                None => !self@.has_slot(self@.argument_slot(i)),
            },
    {
        let base: usize = self.frame_base();
        if base == 0 || i > base - 1 {
            None
        } else {
            let k: usize = base - 1 - i;
            if k < self.stack.len() {
                Some(k)
            } else {
                None
            }
        }
    }

    /// `Add`, `Sub`, `Mul` and `Div`.
    fn binary(&mut self, instruction: Instruction) -> (r: Result<Option<Output>, Fault>)
        requires
            instruction is Add || instruction is Sub || instruction is Mul || instruction is Div,
        ensures
            match r {
                Ok(o) => effect(instruction, old(self)@) == Ok::<Effect, Fault>(
                    Effect { state: final(self)@, output: printed(o) },
                ),
                Err(fault) => effect(instruction, old(self)@) == Err::<Effect, Fault>(fault)
                    && final(self)@ == old(self)@,
            },
    {
        let n: usize = self.stack.len();
        if n < 2 {
            return Err(Fault::EmptyStack);
        }
        let a: isize = *self.stack.get(n - 1);
        let b: isize = *self.stack.get(n - 2);
        let value: Option<isize> = match instruction {
            Instruction::Add => a.checked_add(b),
            Instruction::Sub => b.checked_sub(a),
            Instruction::Mul => a.checked_mul(b),
            _ => {
                if a == 0 {
                    return Err(Fault::DivisionByZero);
                }
                proof {
                    let d: int = if a < 0 { -(a as int) } else { a as int };
                    assert(0int / d == 0) by (nonlinear_arith)
                        requires
                            d > 0,
                    ;
                }
                b.checked_div(a)
            },
        };
        match value {
            None => Err(Fault::ArithmeticOverflow),
            Some(v) => {
                self.stack.pop();
                self.stack.pop();
                self.stack.push(v);
                assert(self.stack@ =~= old(self).stack@.take(n - 2).push(v));
                Ok(None)
            },
        }
    }

    /// `Incr` and `Decr`.
    fn adjust_top(&mut self, delta: isize) -> (r: Result<Option<Output>, Fault>)
        requires
            delta == 1 || delta == -1,
        ensures
            match r {
                Ok(o) => crate::semantics::adjust_top(old(self)@, delta as int) == Ok::<
                    Effect,
                    Fault,
                >(Effect { state: final(self)@, output: printed(o) }),
                Err(fault) => crate::semantics::adjust_top(old(self)@, delta as int) == Err::<
                    Effect,
                    Fault,
                >(fault) && final(self)@ == old(self)@,
            },
    {
        if self.stack.len() == 0 {
            return Err(Fault::EmptyStack);
        }
        match self.stack.peek().checked_add(delta) {
            None => Err(Fault::ArithmeticOverflow),
            Some(v) => {
                *self.stack.peek_mut() = v;
                Ok(None)
            },
        }
    }

    /// A conditional jump whose test came out as `taken`.
    fn branch(&mut self, target: Pointer, taken: bool)
        requires
            old(self).stack@.len() > 0,
        ensures
            final(self)@ == if taken {
                old(self)@.with_stack(old(self).stack@.drop_last()).at(target)
            } else {
                old(self)@
            },
    {
        if taken {
            self.stack.pop();
            self.pointer = target;
        }
    }

    /// Pushes the value in `slot`, where there is such a slot.
    fn load(&mut self, slot: Option<usize>) -> (r: Result<Option<Output>, Fault>)
        requires
            slot matches Some(k) ==> old(self)@.has_slot(k as int),
        ensures
            match slot {
                Some(k) => r == Ok::<Option<Output>, Fault>(None) && final(self)@ == old(
                    self,
                )@.with_stack(old(self).stack@.push(old(self).stack@[k as int])),
                None => r == Err::<Option<Output>, Fault>(Fault::StackIndexOutOfBounds)
                    && final(self)@ == old(self)@,
            },
    {
        match slot {
            Some(k) => {
                let v: isize = *self.stack.get(k);
                self.stack.push(v);
                Ok(None)
            },
            None => Err(Fault::StackIndexOutOfBounds),
        }
    }

    /// Copies the top of the stack into `slot`, where there is such a slot.
    fn store(&mut self, slot: Option<usize>) -> (r: Result<Option<Output>, Fault>)
        requires
            old(self).stack@.len() > 0,
            slot matches Some(k) ==> old(self)@.has_slot(k as int),
        ensures
            match slot {
                Some(k) => r == Ok::<Option<Output>, Fault>(None) && final(self)@ == old(
                    self,
                )@.with_stack(old(self).stack@.update(k as int, old(self).stack@.last())),
                None => r == Err::<Option<Output>, Fault>(Fault::StackIndexOutOfBounds)
                    && final(self)@ == old(self)@,
            },
    {
        match slot {
            Some(k) => {
                let v: isize = self.stack.peek();
                *self.stack.get_mut(k) = v;
                Ok(None)
            },
            None => Err(Fault::StackIndexOutOfBounds),
        }
    }

    /// Executes one instruction. The pointer must already stand behind it.
    ///
    /// On a fault the machine is left as it was.
    pub fn execute(&mut self, instruction: Instruction) -> (r: Result<Option<Output>, Fault>)
        ensures
            match r {
                Ok(o) => effect(instruction, old(self)@) == Ok::<Effect, Fault>(
                    Effect { state: final(self)@, output: printed(o) },
                ),
                Err(fault) => effect(instruction, old(self)@) == Err::<Effect, Fault>(fault)
                    && final(self)@ == old(self)@,
            },
    {
        match instruction {
            Instruction::Noop => Ok(None),
            Instruction::Push(v) => {
                self.stack.push(v);
                Ok(None)
            },
            Instruction::Pop => {
                if self.stack.len() == 0 {
                    return Err(Fault::EmptyStack);
                }
                self.stack.pop();
                Ok(None)
            },
            Instruction::Add | Instruction::Sub | Instruction::Mul | Instruction::Div => {
                self.binary(instruction)
            },
            Instruction::Incr => self.adjust_top(1),
            Instruction::Decr => self.adjust_top(-1),
            Instruction::Jump(target) => {
                self.pointer = target;
                Ok(None)
            },
            Instruction::JE(target)
            | Instruction::JNE(target)
            | Instruction::JGT(target)
            | Instruction::JLT(target)
            | Instruction::JGE(target)
            | Instruction::JLE(target) => {
                if self.stack.len() == 0 {
                    return Err(Fault::EmptyStack);
                }
                let taken: bool = jump_taken(instruction, self.stack.peek());
                self.branch(target, taken);
                Ok(None)
            },
            Instruction::Get(i) => {
                let slot: Option<usize> = self.local_slot(i);
                self.load(slot)
            },
            Instruction::SetSlot(i) => {
                if self.stack.len() == 0 {
                    return Err(Fault::EmptyStack);
                }
                let slot: Option<usize> = self.local_slot(i);
                self.store(slot)
            },
            Instruction::GetArg(i) => {
                if self.call_stack.len() == 0 {
                    return Err(Fault::NoActiveFrame);
                }
                let slot: Option<usize> = self.argument_slot(i);
                self.load(slot)
            },
            Instruction::SetArg(i) => {
                if self.call_stack.len() == 0 {
                    return Err(Fault::NoActiveFrame);
                }
                if self.stack.len() == 0 {
                    return Err(Fault::EmptyStack);
                }
                let slot: Option<usize> = self.argument_slot(i);
                self.store(slot)
            },
            Instruction::Print => {
                if self.stack.len() == 0 {
                    return Err(Fault::EmptyStack);
                }
                Ok(Some(Output::Number(self.stack.peek())))
            },
            Instruction::PrintChar => {
                if self.stack.len() == 0 {
                    return Err(Fault::EmptyStack);
                }
                Ok(Some(Output::Character(character(self.stack.peek()))))
            },
            Instruction::PrintStack => Ok(Some(Output::StackDump(self.stack.values()))),
            Instruction::Call(target) => {
                self.call_stack.push(
                    StackFrame { stack_offset: self.stack.len(), return_ip: self.pointer },
                );
                self.pointer = target;
                Ok(None)
            },
            Instruction::Ret => {
                match self.call_stack.pop() {
                    None => Err(Fault::EmptyCallStack),
                    Some(frame) => {
                        self.pointer = frame.return_ip;
                        Ok(None)
                    },
                }
            },
        }
    }

    /// One turn of the fetch-and-execute loop.
    ///
    /// Where the program has halted or the instruction faults, the machine
    /// is left as it was.
    pub fn step(&mut self, program: &[Instruction]) -> (r: StepOutcome)
        ensures
            match r {
                StepOutcome::Halted => transition(program@, old(self)@) == Transition::Halted
                    && final(self)@ == old(self)@,
                StepOutcome::Ran(o) => transition(program@, old(self)@) == Transition::Ran(
                    Effect { state: final(self)@, output: printed(o) },
                ),
                StepOutcome::Faulted(fault) => transition(program@, old(self)@)
                    == Transition::Faulted(fault) && final(self)@ == old(self)@,
            },
    {
        let here: Pointer = self.pointer;
        if here >= program.len() {
            return StepOutcome::Halted;
        }
        let instruction: Instruction = program[here];
        self.pointer = here + 1;
        match self.execute(instruction) {
            Ok(o) => StepOutcome::Ran(o),
            Err(fault) => {
                self.pointer = here;
                StepOutcome::Faulted(fault)
            },
        }
    }

    /// Runs `program` from the machine's present state until it halts or
    /// faults, or until `max_steps` instructions have been executed, and
    /// appends what it prints to `outputs`.
    pub fn run(
        &mut self,
        program: &[Instruction],
        max_steps: usize,
        outputs: &mut Vec<Output>,
    ) -> (status: Status)
        ensures
            final(self)@ == execution(program@, old(self)@, max_steps as nat).state,
            status == execution(program@, old(self)@, max_steps as nat).status,
            emissions(final(outputs)@) == emissions(old(outputs)@) + execution(
                program@,
                old(self)@,
                max_steps as nat,
            ).outputs,
    {
        let ghost total = execution(program@, old(self)@, max_steps as nat);
        let mut done: usize = 0;
        while done < max_steps
            invariant
                done <= max_steps,
                total == execution(program@, old(self)@, max_steps as nat),
                total.state == execution(program@, self@, (max_steps - done) as nat).state,
                total.status == execution(program@, self@, (max_steps - done) as nat).status,
                emissions(old(outputs)@) + total.outputs == emissions(outputs@) + execution(
                    program@,
                    self@,
                    (max_steps - done) as nat,
                ).outputs,
            decreases max_steps - done,
        {
            let ghost printed_before = outputs@;
            match self.step(program) {
                StepOutcome::Halted => {
                    return Status::Halted;
                },
                StepOutcome::Faulted(fault) => {
                    return Status::Faulted(fault);
                },
                StepOutcome::Ran(o) => {
                    let ghost rest = execution(program@, self@, (max_steps - done - 1) as nat);
                    match o {
                        Some(output) => {
                            outputs.push(output);
                            assert(emissions(outputs@) =~= emissions(printed_before) + emitted(
                                printed(o),
                            ));
                        },
                        None => {
                            assert(emissions(outputs@) =~= emissions(printed_before) + emitted(
                                printed(o),
                            ));
                        },
                    }
                    assert(emissions(outputs@) + rest.outputs =~= emissions(printed_before)
                        + (emitted(printed(o)) + rest.outputs));
                    done = done + 1;
                },
            }
        }
        if self.pointer >= program.len() {
            Status::Halted
        } else {
            Status::OutOfSteps
        }
    }
}

/// Runs `program` from the initial state for at most `max_steps` instructions
/// and reports what it printed and how it ended.
pub fn interpret(program: &[Instruction], max_steps: usize) -> (report: Report)
    ensures
        emissions(report.outputs@) == execution(
            program@,
            MachineState::initial(),
            max_steps as nat,
        ).outputs,
        report.status == execution(program@, MachineState::initial(), max_steps as nat).status,
{
    let mut machine = Machine::new();
    let mut outputs: Vec<Output> = Vec::new();
    let status: Status = machine.run(program, max_steps, &mut outputs);
    assert(emissions(Seq::<Output>::empty()) =~= Seq::<Emission>::empty());
    Report { outputs, status }
}

/// The character that `PrintChar` prints for `v`.
pub fn character(v: isize) -> (c: char)
    ensures
        c == crate::semantics::character_of(v),
{
    let low: isize = v.checked_rem_euclid(256).unwrap();
    (low as u8) as char
}

/// The test that the conditional jump `instruction` makes on `top`.
fn jump_taken(instruction: Instruction, top: isize) -> (taken: bool)
    ensures
        taken == crate::semantics::jump_taken(instruction, top),
{
    match instruction {
        Instruction::JE(_) => top == 0,
        Instruction::JNE(_) => top != 0,
        Instruction::JGT(_) => top > 0,
        Instruction::JLT(_) => top < 0,
        Instruction::JGE(_) => top >= 0,
        _ => top <= 0,
    }
}

} // verus!
