//! A minimal stack-based virtual machine and the single-pass assembler that
//! feeds it.
//!
//! A program is a flat array of [`instruction::Instruction`]s. The
//! [`machine::Machine`] runs it against an operand stack and a call stack;
//! [`semantics`] states what every instruction does, and the machine is
//! verified against that statement. The [`assembler`] turns token lines into
//! a program, resolving labels and procedures to addresses, and [`render`]
//! gives the text of what a program prints. [`laws`] holds what follows for
//! every state, program and source.
//!
//! The library neither reads nor prints: whoever uses it hands in token
//! lines and writes out the text.

pub mod assembler;
pub mod instruction;
pub mod laws;
pub mod machine;
pub mod render;
pub mod semantics;
pub mod stack;
pub mod tables;
pub mod text;
