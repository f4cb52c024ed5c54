//! The instruction set: a tagged value, one variant per opcode, carrying
//! typed operands. Every variant has exactly one canonical 16-bit
//! encoding (see `encode`), and decoding is total: any 16-bit word either
//! decodes to exactly one instruction or is rejected (see `decode`).

use vstd::prelude::*;
use crate::registers::Register;

verus! {

/// The closed set of system calls. Adding a new syscall extends this
/// enumeration; the engine never accepts an arbitrary code.
#[derive(Debug, Clone, Copy, PartialEq, Eq, Structural)]
pub enum Syscall {
    /// Write one byte as a character to the console side channel.
    Putc,
}

/// Full list of opcodes used by the virtual machine.
#[derive(Debug, Clone, Copy, PartialEq, Eq, Structural)]
pub enum Opcode {
    /// No operation.
    Nop,
    /// Halt the machine, recording `code` for external inspection.
    Halt { code: u8 },
    /// Move the value of register `src` into register `dst`.
    Mov { dst: Register, src: Register },
    /// Add `src` to `dst`, recomputing all flags.
    Add { dst: Register, src: Register },
    /// Subtract `src` from `dst` with 8-bit wraparound, recomputing all
    /// flags.
    Sub { dst: Register, src: Register },
    /// Load the 8-bit immediate `value` into register `dst`.
    Ldi { dst: Register, value: u8 },
    /// Jump to the 12-bit address `addr`.
    Jmp { addr: u16 },
    /// Jump to `addr` if the zero flag is set.
    Jz { addr: u16 },
    /// Jump to `addr` if the zero flag is clear.
    Jnz { addr: u16 },
    /// Call the subroutine at `addr`: push the program counter and jump
    /// to `addr` offset by the stack region's size.
    Call { addr: u16 },
    /// Return from a subroutine: pop a 16-bit return address.
    Ret,
    /// Push the low byte of register `src` onto the stack.
    Push { src: Register },
    /// Pop one byte from the stack into register `dst`.
    Pop { dst: Register },
    /// Load one byte from memory address `addr` into register `R0`.
    Ld { addr: u16 },
    /// Store the low byte of register `R7` to memory address `addr`.
    St { addr: u16 },
    /// Global load: read one byte of the mailbox selected by the
    /// addressing role (and, for the arbiter, by register `bot`) at the
    /// offset held in the index register, into register `dst`.
    Ldg { dst: Register, bot: Register },
    /// Global store: write the low byte of register `src` into the
    /// selected mailbox at the offset held in the index register.
    Stg { src: Register, bot: Register },
    /// Perform the system call `syscall` with the value of register `src`.
    Sys { syscall: Syscall, src: Register },
}

impl Opcode {
    /// Operand validity: every address operand fits in the 12 bits its
    /// encoding reserves for it. Register and immediate operands are
    /// valid by type.
    pub open spec fn wf(self) -> bool {
        match self {
            Opcode::Jmp { addr } => addr <= 0xFFF,
            Opcode::Jz { addr } => addr <= 0xFFF,
            Opcode::Jnz { addr } => addr <= 0xFFF,
            Opcode::Call { addr } => addr <= 0xFFF,
            Opcode::Ld { addr } => addr <= 0xFFF,
            Opcode::St { addr } => addr <= 0xFFF,
            _ => true,
        }
    }
}

} // verus!
