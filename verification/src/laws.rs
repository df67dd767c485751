//! Laws of the machine and of the assembler: what holds of every state,
//! every program and every source.

use vstd::prelude::*;

use crate::assembler::{
    assembly, decode, decode_lines, inside_procedure, is_end_line, is_label_line, is_proc_line,
    label_map, next_end, opens_procedure, procedure_map, procedures_of, DecodeError,
};
use crate::instruction::{Instruction, Pointer};
use crate::semantics::{effect, execution, fits, Effect, Fault, MachineState};

verus! {

/// The program is one that a machine can hold.
pub open spec fn addressable(program: Seq<Instruction>) -> bool {
    program.len() <= usize::MAX
}

/// `Push(v)` followed by `Pop` is the identity: neither instruction moves
/// the pointer, and the operand stack and the call stack come out as they
/// went in.
pub proof fn push_then_pop_restores(s: MachineState, v: isize)
    ensures
        effect(Instruction::Push(v), s) matches Ok(pushed) && effect(
            Instruction::Pop,
            pushed.state,
        ) == Ok::<Effect, Fault>(Effect::silent(s)),
{
    assert(s.stack.push(v).drop_last() =~= s.stack);
}

/// Inside a program, `Push(v)` followed by `Pop` only carries the pointer
/// past the pair: two steps later both stacks are as before and nothing was
/// printed.
pub proof fn push_pop_pair_is_skipped(program: Seq<Instruction>, s: MachineState, v: isize)
    requires
        addressable(program),
        s.pointer + 1 < program.len(),
        program[s.pointer as int] == Instruction::Push(v),
        program[s.pointer + 1] == Instruction::Pop,
    ensures
        execution(program, s, 2).state == s.at((s.pointer + 2) as usize),
        execution(program, s, 2).outputs == Seq::<crate::semantics::Emission>::empty(),
{
    reveal_with_fuel(execution, 3);
    assert(s.stack.push(v).drop_last() =~= s.stack);
    assert(execution(program, s, 2).outputs =~= Seq::<crate::semantics::Emission>::empty());
}

/// `Sub` followed by `JE(target)` is a test for equality: on a stack that
/// ends in `b`, `a` it jumps and leaves neither value where `b == a`, and
/// goes on with `b - a` on the stack where they differ.
pub proof fn sub_then_je_tests_equality(s: MachineState, target: Pointer)
    requires
        s.stack.len() >= 2,
        fits(s.stack[s.stack.len() - 2] - s.stack[s.stack.len() - 1]),
    ensures
        ({
            let n = s.stack.len() as int;
            let a = s.stack[n - 1];
            let b = s.stack[n - 2];
            let below = s.stack.take(n - 2);
            effect(Instruction::Sub, s) matches Ok(difference) && effect(
                Instruction::JE(target),
                difference.state,
            ) == Ok::<Effect, Fault>(
                Effect::silent(
                    if b == a {
                        s.with_stack(below).at(target)
                    } else {
                        s.with_stack(below.push((b - a) as isize))
                    },
                ),
            )
        }),
{
    let n = s.stack.len() as int;
    let below = s.stack.take(n - 2);
    let d = (s.stack[n - 2] - s.stack[n - 1]) as isize;
    assert(below.push(d).drop_last() =~= below);
}

/// A `Call` whose target is a `Ret` comes straight back: two steps later the
/// pointer stands one past the `Call`, and both stacks are as before.
pub proof fn call_then_ret_returns(program: Seq<Instruction>, s: MachineState, target: Pointer)
    requires
        addressable(program),
        s.pointer < program.len(),
        program[s.pointer as int] == Instruction::Call(target),
        target < program.len(),
        program[target as int] == Instruction::Ret,
    ensures
        execution(program, s, 2).state == s.at((s.pointer + 1) as usize),
        execution(program, s, 2).outputs == Seq::<crate::semantics::Emission>::empty(),
{
    reveal_with_fuel(execution, 3);
    let frame = crate::semantics::StackFrame {
        stack_offset: s.stack.len() as usize,
        return_ip: (s.pointer + 1) as usize,
    };
    assert(s.frames.push(frame).drop_last() =~= s.frames);
    assert(execution(program, s, 2).outputs =~= Seq::<crate::semantics::Emission>::empty());
}

/// `Get(i)` right after `SetSlot(i)` pushes the value that was stored, which
/// is the top of the stack: for every offset that names a slot of the stack.
pub proof fn get_after_set_reads_what_was_stored(s: MachineState, i: Pointer)
    requires
        s.has_slot(s.local_slot(i)),
    ensures
        effect(Instruction::SetSlot(i), s) matches Ok(stored) && effect(
            Instruction::Get(i),
            stored.state,
        ) == Ok::<Effect, Fault>(
            Effect::silent(stored.state.with_stack(stored.state.stack.push(s.stack.last()))),
        ),
        effect(Instruction::SetSlot(i), s) matches Ok(stored) && stored.state == s.with_stack(
            s.stack.update(s.local_slot(i), s.stack.last()),
        ),
{
}

/// Inside a procedure that has just been called, `GetArg(i)` pushes the
/// value that lay `i` slots under the top of the caller's stack: `GetArg(0)`
/// the last value the caller pushed, and each further offset the one pushed
/// before it.
pub proof fn get_arg_walks_back_from_the_call(s: MachineState, target: Pointer, i: Pointer)
    requires
        s.wf(),
        i < s.stack.len(),
    ensures
        effect(Instruction::Call(target), s) matches Ok(called) && effect(
            Instruction::GetArg(i),
            called.state,
        ) == Ok::<Effect, Fault>(
            Effect::silent(
                called.state.with_stack(s.stack.push(s.stack[s.stack.len() - 1 - i])),
            ),
        ),
{
}

/// Nested calls unwind in order: where the program calls a procedure at
/// `outer`, which at once calls one at `inner`, and both return, four steps
/// later the pointer stands one past the first `Call` and both stacks are as
/// before. Started outside any procedure, the run ends outside any procedure.
pub proof fn nested_calls_return(
    program: Seq<Instruction>,
    s: MachineState,
    outer: Pointer,
    inner: Pointer,
)
    requires
        addressable(program),
        s.pointer < program.len(),
        program[s.pointer as int] == Instruction::Call(outer),
        outer + 1 < program.len(),
        program[outer as int] == Instruction::Call(inner),
        program[outer + 1] == Instruction::Ret,
        inner < program.len(),
        program[inner as int] == Instruction::Ret,
    ensures
        execution(program, s, 4).state == s.at((s.pointer + 1) as usize),
        execution(program, s, 4).outputs == Seq::<crate::semantics::Emission>::empty(),
        s.frames.len() == 0 ==> execution(program, s, 4).state.frames.len() == 0,
{
    reveal_with_fuel(execution, 5);
    let first = crate::semantics::StackFrame {
        stack_offset: s.stack.len() as usize,
        return_ip: (s.pointer + 1) as usize,
    };
    let second = crate::semantics::StackFrame {
        stack_offset: s.stack.len() as usize,
        return_ip: (outer + 1) as usize,
    };
    assert(s.frames.push(first).push(second).drop_last() =~= s.frames.push(first));
    assert(s.frames.push(first).drop_last() =~= s.frames);
    assert(execution(program, s, 4).outputs =~= Seq::<crate::semantics::Emission>::empty());
}

/// The source is one that an assembler can hold.
pub open spec fn addressable_source(lines: Seq<Seq<Seq<char>>>) -> bool {
    lines.len() <= usize::MAX
}

/// Line `i` declares the label `name`.
pub open spec fn declares_label(lines: Seq<Seq<Seq<char>>>, i: int, name: Seq<char>) -> bool {
    0 <= i < lines.len() && is_label_line(lines[i]) && lines[i][1] == name
}

/// Line `i` opens the procedure `name`.
pub open spec fn opens_named(lines: Seq<Seq<Seq<char>>>, i: int, name: Seq<char>) -> bool {
    opens_procedure(lines, i) && lines[i][1] == name
}

/// The label map binds exactly the names that some line declares.
pub proof fn labels_are_the_declared_names(lines: Seq<Seq<Seq<char>>>, name: Seq<char>)
    ensures
        label_map(lines).contains_key(name) <==> exists|i: int| declares_label(lines, i, name),
    decreases lines.len(),
{
    if lines.len() > 0 {
        let before = lines.drop_last();
        labels_are_the_declared_names(before, name);
        let last = lines.len() - 1;
        if label_map(lines).contains_key(name) {
            if is_label_line(lines[last]) && lines[last][1] == name {
                assert(declares_label(lines, last, name));
            } else {
                let i = choose|i: int| declares_label(before, i, name);
                assert(declares_label(lines, i, name));
            }
        }
        if exists|i: int| declares_label(lines, i, name) {
            let i = choose|i: int| declares_label(lines, i, name);
            if i < last {
                assert(declares_label(before, i, name));
            }
        }
    }
}

/// A label stands for the line behind its last declaration.
pub proof fn label_stands_for_the_line_behind_it(
    lines: Seq<Seq<Seq<char>>>,
    i: int,
    name: Seq<char>,
)
    requires
        addressable_source(lines),
        declares_label(lines, i, name),
        forall|j: int| i < j ==> !declares_label(lines, j, name),
    ensures
        label_map(lines).contains_key(name),
        label_map(lines)[name] == i + 1,
    decreases lines.len(),
{
    let last = lines.len() - 1;
    if i < last {
        let before = lines.drop_last();
        assert(!declares_label(lines, last, name));
        assert(declares_label(before, i, name));
        assert forall|j: int| i < j implies !declares_label(before, j, name) by {
            if declares_label(before, j, name) {
                assert(declares_label(lines, j, name));
            }
        }
        label_stands_for_the_line_behind_it(before, i, name);
    }
}

/// A line lies inside a procedure exactly where some `Proc` line before it
/// is followed by no `End` line up to it.
pub proof fn inside_means_an_open_proc_line(lines: Seq<Seq<Seq<char>>>, i: int)
    ensures
        inside_procedure(lines, i) <==> 0 < i <= lines.len() && exists|j: int|
            0 <= j < i && is_proc_line(#[trigger] lines[j]) && forall|k: int|
                j < k < i ==> !is_end_line(#[trigger] lines[k]),
    decreases i,
{
    if 0 < i <= lines.len() {
        inside_means_an_open_proc_line(lines, i - 1);
        if inside_procedure(lines, i) {
            if is_proc_line(lines[i - 1]) {
                let j = i - 1;
                assert(is_proc_line(lines[j]) && forall|k: int|
                    j < k < i ==> !is_end_line(#[trigger] lines[k]));
            } else {
                let j = choose|j: int|
                    0 <= j < i - 1 && is_proc_line(#[trigger] lines[j]) && forall|k: int|
                        j < k < i - 1 ==> !is_end_line(#[trigger] lines[k]);
                assert(is_proc_line(lines[j]) && forall|k: int|
                    j < k < i ==> !is_end_line(#[trigger] lines[k]));
            }
        }
        if exists|j: int|
            0 <= j < i && is_proc_line(#[trigger] lines[j]) && forall|k: int|
                j < k < i ==> !is_end_line(#[trigger] lines[k]) {
            let j = choose|j: int|
                0 <= j < i && is_proc_line(#[trigger] lines[j]) && forall|k: int|
                    j < k < i ==> !is_end_line(#[trigger] lines[k]);
            if j < i - 1 {
                assert(!is_end_line(lines[i - 1]));
                assert(is_proc_line(lines[j]) && forall|k: int|
                    j < k < i - 1 ==> !is_end_line(#[trigger] lines[k]));
            }
        }
    }
}

/// `next_end` finds the first `End` line at or behind a position: no line
/// before it is one, and it is one itself unless the source has run out.
pub proof fn next_end_is_the_first_end(lines: Seq<Seq<Seq<char>>>, from: int)
    requires
        0 <= from <= lines.len(),
    ensures
        from <= next_end(lines, from) <= lines.len(),
        forall|k: int| from <= k < next_end(lines, from) ==> !is_end_line(#[trigger] lines[k]),
        next_end(lines, from) < lines.len() ==> is_end_line(lines[next_end(lines, from)]),
    decreases lines.len() - from,
{
    if from < lines.len() && !is_end_line(lines[from]) {
        next_end_is_the_first_end(lines, from + 1);
    }
}

/// The procedure map binds exactly the names that some line opens.
pub proof fn procedures_are_the_opened_names(lines: Seq<Seq<Seq<char>>>, n: int, name: Seq<char>)
    ensures
        procedure_map(lines, n).contains_key(name) <==> exists|i: int|
            i < n && opens_named(lines, i, name),
    decreases n,
{
    if n > 0 {
        procedures_are_the_opened_names(lines, n - 1, name);
        if procedure_map(lines, n).contains_key(name) {
            if opens_named(lines, n - 1, name) {
            } else {
                let i = choose|i: int| i < n - 1 && opens_named(lines, i, name);
                assert(i < n && opens_named(lines, i, name));
            }
        }
        if exists|i: int| i < n && opens_named(lines, i, name) {
            let i = choose|i: int| i < n && opens_named(lines, i, name);
            if i < n - 1 {
                assert(i < n - 1 && opens_named(lines, i, name));
            }
        }
    }
}

/// A procedure is bound to the line that last opened it and to the line
/// behind the next `End`.
pub proof fn procedure_spans_to_the_next_end(
    lines: Seq<Seq<Seq<char>>>,
    n: int,
    i: int,
    name: Seq<char>,
)
    requires
        addressable_source(lines),
        i < n,
        opens_named(lines, i, name),
        next_end(lines, i) < lines.len(),
        forall|j: int| i < j < n ==> !opens_named(lines, j, name),
    ensures
        procedure_map(lines, n).contains_key(name),
        procedure_map(lines, n)[name] == (i as usize, (next_end(lines, i) + 1) as usize),
        i < next_end(lines, i),
    decreases n,
{
    next_end_is_the_first_end(lines, i);
    assert(next_end(lines, i) == next_end(lines, i + 1));
    if i < n - 1 {
        procedure_spans_to_the_next_end(lines, n - 1, i, name);
        assert(!opens_named(lines, n - 1, name));
    }
}

/// The instructions that `decode_lines` yields are the decodings of the
/// lines, one for one.
pub proof fn decoded_lines_match(
    lines: Seq<Seq<Seq<char>>>,
    labels: Map<Seq<char>, Pointer>,
    procedures: Map<Seq<char>, (Pointer, Pointer)>,
    n: int,
)
    requires
        0 <= n,
    ensures
        decode_lines(lines, labels, procedures, n) matches Ok(program) ==> program.len() == n
            && forall|i: int|
            0 <= i < n ==> decode(#[trigger] lines[i], labels, procedures) == Ok::<
                Instruction,
                DecodeError,
            >(program[i]),
        decode_lines(lines, labels, procedures, n) is Ok <==> forall|i: int|
            0 <= i < n ==> decode(#[trigger] lines[i], labels, procedures) is Ok,
    decreases n,
{
    if n > 0 {
        decoded_lines_match(lines, labels, procedures, n - 1);
        if decode_lines(lines, labels, procedures, n) is Err {
            if decode_lines(lines, labels, procedures, n - 1) is Ok {
                assert(decode(lines[n - 1], labels, procedures) is Err);
            }
        }
    }
}

/// Assembling keeps the lines' order: the program has one instruction for
/// each line of the source, and the instruction at an address is what the
/// line at that index spells. Every address that the resolvers computed is
/// therefore an address in the program.
pub proof fn assembly_keeps_line_order(lines: Seq<Seq<Seq<char>>>, program: Seq<Instruction>)
    requires
        assembly(lines) == Ok::<Seq<Instruction>, DecodeError>(program),
    ensures
        program.len() == lines.len(),
        procedures_of(lines) is Ok,
        forall|i: int|
            0 <= i < lines.len() ==> decode(
                #[trigger] lines[i],
                label_map(lines),
                procedures_of(lines)->Ok_0,
            ) == Ok::<Instruction, DecodeError>(program[i]),
{
    decoded_lines_match(lines, label_map(lines), procedures_of(lines)->Ok_0, lines.len() as int);
}

} // verus!
