//! The register file: eight 8-bit general-purpose registers, a 16-bit
//! program counter, an 8-bit stack pointer, an 8-bit index register used
//! for global (mailbox) addressing, and an 8-bit flag register.
//!
//! Reads zero-extend a register's native width to 16 bits; writes
//! truncate the 16-bit value to the register's native width.

use vstd::prelude::*;

verus! {

/// Identity of a register. Only these identities exist; instruction
/// decoding rejects any 4-bit code that does not name one of them.
#[derive(Debug, Clone, Copy, PartialEq, Eq, Structural)]
pub enum Register {
    R0,
    R1,
    R2,
    R3,
    R4,
    R5,
    R6,
    R7,
    /// Index register, the address operand of global load/store.
    I,
    /// Stack pointer.
    SP,
    /// Program counter.
    PC,
    /// Flag register.
    F,
}

/// Zero flag: the low 8 bits of the last ALU result were zero.
pub const Z_FLAG: u8 = 0x01;
/// Carry flag: the last add carried out of 8 bits, or the last subtract
/// borrowed.
pub const C_FLAG: u8 = 0x02;
/// Negative flag: bit 7 of the last ALU result was set.
pub const N_FLAG: u8 = 0x04;
/// Overflow flag: the last ALU operation overflowed as a signed 8-bit
/// operation.
pub const V_FLAG: u8 = 0x08;

/// The register file. Every ALU operation recomputes the whole flag
/// register from scratch; flags are never accumulated across operations.
#[derive(Debug, Clone, Copy, PartialEq, Eq, Structural)]
pub struct Registers {
    pub r0: u8,
    pub r1: u8,
    pub r2: u8,
    pub r3: u8,
    pub r4: u8,
    pub r5: u8,
    pub r6: u8,
    pub r7: u8,
    /// Index register.
    pub index: u8,
    /// Stack pointer; counts the bytes in use of the reserved stack region.
    pub stack_pointer: u8,
    /// Program counter.
    pub program_counter: u16,
    /// Flag register.
    pub flag: u8,
}

impl Registers {
    /// The value a read of `register` returns, zero-extended to 16 bits.
    pub open spec fn spec_read(self, register: Register) -> u16 {
        match register {
            Register::R0 => self.r0 as u16,
            Register::R1 => self.r1 as u16,
            Register::R2 => self.r2 as u16,
            Register::R3 => self.r3 as u16,
            Register::R4 => self.r4 as u16,
            Register::R5 => self.r5 as u16,
            Register::R6 => self.r6 as u16,
            Register::R7 => self.r7 as u16,
            Register::I => self.index as u16,
            Register::SP => self.stack_pointer as u16,
            Register::PC => self.program_counter,
            Register::F => self.flag as u16,
        }
    }

    /// The register file after writing `value` to `register`, truncated
    /// to the register's native width.
    pub open spec fn spec_write(self, register: Register, value: u16) -> Registers {
        match register {
            Register::R0 => Registers { r0: value as u8, ..self },
            Register::R1 => Registers { r1: value as u8, ..self },
            Register::R2 => Registers { r2: value as u8, ..self },
            Register::R3 => Registers { r3: value as u8, ..self },
            Register::R4 => Registers { r4: value as u8, ..self },
            Register::R5 => Registers { r5: value as u8, ..self },
            Register::R6 => Registers { r6: value as u8, ..self },
            Register::R7 => Registers { r7: value as u8, ..self },
            Register::I => Registers { index: value as u8, ..self },
            Register::SP => Registers { stack_pointer: value as u8, ..self },
            Register::PC => Registers { program_counter: value, ..self },
            Register::F => Registers { flag: value as u8, ..self },
        }
    }

    /// The register file with every register zero.
    pub open spec fn spec_zeroed() -> Registers {
        Registers {
            r0: 0,
            r1: 0,
            r2: 0,
            r3: 0,
            r4: 0,
            r5: 0,
            r6: 0,
            r7: 0,
            index: 0,
            stack_pointer: 0,
            program_counter: 0,
            flag: 0,
        }
    }

    /// Read a register, zero-extending its native width to 16 bits.
    pub fn read(&self, register: Register) -> (r: u16)
        ensures
            r == self.spec_read(register),
    {
        match register {
            Register::R0 => self.r0 as u16,
            Register::R1 => self.r1 as u16,
            Register::R2 => self.r2 as u16,
            Register::R3 => self.r3 as u16,
            Register::R4 => self.r4 as u16,
            Register::R5 => self.r5 as u16,
            Register::R6 => self.r6 as u16,
            Register::R7 => self.r7 as u16,
            Register::I => self.index as u16,
            Register::SP => self.stack_pointer as u16,
            Register::PC => self.program_counter,
            Register::F => self.flag as u16,
        }
    }

    /// Write a register, truncating the value to the register's native
    /// width.
    pub fn write(&mut self, register: Register, value: u16)
        ensures
            *final(self) == old(self).spec_write(register, value),
    {
        match register {
            Register::R0 => self.r0 = value as u8,
            Register::R1 => self.r1 = value as u8,
            Register::R2 => self.r2 = value as u8,
            Register::R3 => self.r3 = value as u8,
            Register::R4 => self.r4 = value as u8,
            Register::R5 => self.r5 = value as u8,
            Register::R6 => self.r6 = value as u8,
            Register::R7 => self.r7 = value as u8,
            Register::I => self.index = value as u8,
            Register::SP => self.stack_pointer = value as u8,
            Register::PC => self.program_counter = value,
            Register::F => self.flag = value as u8,
        }
    }
}

impl Default for Registers {
    /// A register file with every register zero.
    fn default() -> (r: Registers)
        ensures
            r == Registers::spec_zeroed(),
    {
        Registers {
            r0: 0,
            r1: 0,
            r2: 0,
            r3: 0,
            r4: 0,
            r5: 0,
            r6: 0,
            r7: 0,
            index: 0,
            stack_pointer: 0,
            program_counter: 0,
            flag: 0,
        }
    }
}

} // verus!
