//! The instruction set of the machine.

use vstd::prelude::*;

verus! {

/// An index into the flat instruction array. Stack slots and jump targets
/// are counted the same way.
pub type Pointer = usize;

/// One instruction: a tag, and for some tags a single integer operand.
///
/// Jump and call targets are absolute indices into the program. The
/// operands of `Get`, `SetSlot`, `GetArg` and `SetArg` are offsets relative to
/// the current call frame.
#[derive(Debug, Clone, Copy, PartialEq, Eq, Structural)]
pub enum Instruction {
    Push(isize),
    Pop,
    Add,
    Sub,
    Incr,
    Decr,
    Mul,
    Div,
    Jump(Pointer),
    JE(Pointer),
    JNE(Pointer),
    JGT(Pointer),
    JLT(Pointer),
    JGE(Pointer),
    JLE(Pointer),
    Get(Pointer),
    SetSlot(Pointer),
    GetArg(Pointer),
    SetArg(Pointer),
    Noop,
    Print,
    PrintChar,
    PrintStack,
    Call(Pointer),
    Ret,
}

} // verus!
