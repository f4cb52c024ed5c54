//! Encoding of instructions into 16-bit words.
//!
//! Binary layout: the top 4 bits select an opcode group. Group `0x0` is
//! control (`0x0000` no-op, `0x0100|code` halt). Group `0x1` is
//! register-register ALU with a sub-selector in bits 8-11 (`0x0` move,
//! `0x1` add, `0x2` subtract) and 4-bit dst/src register codes in bits
//! 4-7/0-3. Group `0x2` is immediate load (dst in bits 8-11, immediate in
//! bits 0-7). Groups `0x3`-`0x6` carry a 12-bit address (jump,
//! jump-if-zero, jump-if-not-zero, call). Group `0x7` is stack/return
//! (`0x7000` return, `0x7100|src<<4` push, `0x7200|dst<<4` pop). Groups
//! `0x8`/`0x9` are memory load/store with a 12-bit address and an
//! implicit register operand. Groups `0xA`/`0xB` are global load/store
//! with dst/src in bits 4-7 and the operand register in bits 0-3. Group
//! `0xC` is the system call group with the call selector in bits 8-11 and
//! the source register in bits 4-7.

use vstd::prelude::*;
use crate::opcodes::{Opcode, Syscall};
use crate::registers::Register;

verus! {

/// The 4-bit code of a register: general-purpose registers map to
/// `0x0`-`0x7`, the index register to `0xC`, the stack pointer to `0xD`,
/// the program counter to `0xE` and the flag register to `0xF`.
pub open spec fn spec_encode_register(register: Register) -> u8 {
    match register {
        Register::R0 => 0x0,
        Register::R1 => 0x1,
        Register::R2 => 0x2,
        Register::R3 => 0x3,
        Register::R4 => 0x4,
        Register::R5 => 0x5,
        Register::R6 => 0x6,
        Register::R7 => 0x7,
        Register::I => 0xC,
        Register::SP => 0xD,
        Register::PC => 0xE,
        Register::F => 0xF,
    }
}

/// The canonical 16-bit encoding of an instruction.
pub open spec fn spec_encode(opcode: Opcode) -> u16 {
    match opcode {
        Opcode::Nop => 0x0000,
        Opcode::Halt { code } => 0x0100 | code as u16,
        Opcode::Mov { dst, src } => 0x1000 | (spec_encode_register(dst) as u16) << 4
            | spec_encode_register(src) as u16,
        Opcode::Add { dst, src } => 0x1100 | (spec_encode_register(dst) as u16) << 4
            | spec_encode_register(src) as u16,
        Opcode::Sub { dst, src } => 0x1200 | (spec_encode_register(dst) as u16) << 4
            | spec_encode_register(src) as u16,
        Opcode::Ldi { dst, value } => 0x2000 | (spec_encode_register(dst) as u16) << 8
            | value as u16,
        Opcode::Jmp { addr } => 0x3000 | (addr & 0xFFF),
        Opcode::Jz { addr } => 0x4000 | (addr & 0xFFF),
        Opcode::Jnz { addr } => 0x5000 | (addr & 0xFFF),
        Opcode::Call { addr } => 0x6000 | (addr & 0xFFF),
        Opcode::Ret => 0x7000,
        Opcode::Push { src } => 0x7100 | (spec_encode_register(src) as u16) << 4,
        Opcode::Pop { dst } => 0x7200 | (spec_encode_register(dst) as u16) << 4,
        Opcode::Ld { addr } => 0x8000 | (addr & 0xFFF),
        Opcode::St { addr } => 0x9000 | (addr & 0xFFF),
        Opcode::Ldg { dst, bot } => 0xA000 | (spec_encode_register(dst) as u16) << 4
            | spec_encode_register(bot) as u16,
        Opcode::Stg { src, bot } => 0xB000 | (spec_encode_register(src) as u16) << 4
            | spec_encode_register(bot) as u16,
        Opcode::Sys { syscall, src } => match syscall {
            Syscall::Putc => 0xC000 | (spec_encode_register(src) as u16) << 4,
        },
    }
}

/// Encode a register identity into its 4-bit code.
pub fn encode_register(register: Register) -> (r: u8)
    ensures
        r == spec_encode_register(register),
        r <= 0xF,
{
    match register {
        Register::R0 => 0x0,
        Register::R1 => 0x1,
        Register::R2 => 0x2,
        Register::R3 => 0x3,
        Register::R4 => 0x4,
        Register::R5 => 0x5,
        Register::R6 => 0x6,
        Register::R7 => 0x7,
        Register::I => 0xC,
        Register::SP => 0xD,
        Register::PC => 0xE,
        Register::F => 0xF,
    }
}

/// Encode an instruction into its canonical 16-bit word.
pub fn encode(opcode: &Opcode) -> (r: u16)
    ensures
        r == spec_encode(*opcode),
{
    match opcode {
        Opcode::Nop => 0x0000,
        Opcode::Halt { code } => 0x0100 | *code as u16,
        Opcode::Mov { dst, src } => {
            let dst = encode_register(*dst);
            let src = encode_register(*src);
            0x1000 | (dst as u16) << 4 | src as u16
        },
        Opcode::Add { dst, src } => {
            let dst = encode_register(*dst);
            let src = encode_register(*src);
            0x1100 | (dst as u16) << 4 | src as u16
        },
        Opcode::Sub { dst, src } => {
            let dst = encode_register(*dst);
            let src = encode_register(*src);
            0x1200 | (dst as u16) << 4 | src as u16
        },
        Opcode::Ldi { dst, value } => {
            let dst = encode_register(*dst);
            0x2000 | (dst as u16) << 8 | *value as u16
        },
        Opcode::Jmp { addr } => 0x3000 | (*addr & 0xFFF),
        Opcode::Jz { addr } => 0x4000 | (*addr & 0xFFF),
        Opcode::Jnz { addr } => 0x5000 | (*addr & 0xFFF),
        Opcode::Call { addr } => 0x6000 | (*addr & 0xFFF),
        Opcode::Ret => 0x7000,
        Opcode::Push { src } => {
            let src = encode_register(*src);
            0x7100 | (src as u16) << 4
        },
        Opcode::Pop { dst } => {
            let dst = encode_register(*dst);
            0x7200 | (dst as u16) << 4
        },
        Opcode::Ld { addr } => 0x8000 | (*addr & 0xFFF),
        Opcode::St { addr } => 0x9000 | (*addr & 0xFFF),
        Opcode::Ldg { dst, bot } => {
            let dst = encode_register(*dst);
            let bot = encode_register(*bot);
            0xA000 | (dst as u16) << 4 | bot as u16
        },
        Opcode::Stg { src, bot } => {
            let src = encode_register(*src);
            let bot = encode_register(*bot);
            0xB000 | (src as u16) << 4 | bot as u16
        },
        Opcode::Sys { syscall, src } => {
            let src = encode_register(*src);
            match syscall {
                Syscall::Putc => 0xC000 | (src as u16) << 4,
            }
        },
    }
}

/// The big-endian byte sequence of a program: each instruction in order,
/// high byte first.
pub open spec fn spec_encode_program(program: Seq<Opcode>) -> Seq<u8>
    decreases program.len(),
{
    if program.len() == 0 {
        Seq::empty()
    } else {
        let word = spec_encode(program[0]);
        seq![(word >> 8) as u8, (word & 0xFF) as u8] + spec_encode_program(program.skip(1))
    }
}

/// Encode a program into its flat binary form: a sequence of 16-bit
/// big-endian instruction words.
pub fn encode_program(program: &[Opcode]) -> (r: Vec<u8>)
    ensures
        r@ == spec_encode_program(program@),
        r@.len() == 2 * program@.len(),
{
    let mut out: Vec<u8> = Vec::new();
    let mut i: usize = 0;
    proof {
        assert(program@.skip(0) == program@);
    }
    while i < program.len()
        invariant
            i <= program@.len(),
            out@.len() == 2 * i,
            out@ + spec_encode_program(program@.skip(i as int)) == spec_encode_program(program@),
        decreases program@.len() - i,
    {
        let word = encode(&program[i]);
        out.push((word >> 8) as u8);
        out.push((word & 0xFF) as u8);
        proof {
            assert(program@.skip(i as int)[0] == program@[i as int]);
            assert(program@.skip(i as int).skip(1) == program@.skip(i + 1));
            assert(out@ + spec_encode_program(program@.skip(i + 1)) == spec_encode_program(
                program@,
            ));
        }
        i = i + 1;
    }
    proof {
        assert(program@.skip(program@.len() as int) =~= Seq::<Opcode>::empty());
        assert(out@ =~= spec_encode_program(program@));
    }
    out
}

} // verus!
