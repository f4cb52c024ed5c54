//! Decoding of 16-bit words into instructions.
//!
//! Decoding is total: every word either decodes to exactly one
//! instruction or is rejected with `None`. A rejected word makes the
//! engine halt; it is never undefined behaviour. Any group/sub-selector
//! combination or register code outside the layout documented in
//! `encode` is rejected.

use vstd::prelude::*;
use crate::opcodes::{Opcode, Syscall};
use crate::registers::Register;
use crate::encode::{spec_encode, spec_encode_register};

verus! {

/// The register a 4-bit code names, if any. Codes `0x8`-`0xB` name no
/// register and are rejected.
pub open spec fn spec_decode_register(code: u8) -> Option<Register> {
    if code == 0x0 {
        Some(Register::R0)
    } else if code == 0x1 {
        Some(Register::R1)
    } else if code == 0x2 {
        Some(Register::R2)
    } else if code == 0x3 {
        Some(Register::R3)
    } else if code == 0x4 {
        Some(Register::R4)
    } else if code == 0x5 {
        Some(Register::R5)
    } else if code == 0x6 {
        Some(Register::R6)
    } else if code == 0x7 {
        Some(Register::R7)
    } else if code == 0xC {
        Some(Register::I)
    } else if code == 0xD {
        Some(Register::SP)
    } else if code == 0xE {
        Some(Register::PC)
    } else if code == 0xF {
        Some(Register::F)
    } else {
        None
    }
}

/// The instruction a 16-bit word encodes, if any.
pub open spec fn spec_decode(word: u16) -> Option<Opcode> {
    let group = word >> 12;
    let sub = ((word >> 8) & 0xF) as u8;
    let hi = ((word >> 4) & 0xF) as u8;
    let lo = (word & 0xF) as u8;
    let addr = word & 0xFFF;
    let imm = (word & 0xFF) as u8;
    if group == 0x0 {
        if word == 0x0000 {
            Some(Opcode::Nop)
        } else if sub == 0x1 {
            Some(Opcode::Halt { code: imm })
        } else {
            None
        }
    } else if group == 0x1 {
        match (spec_decode_register(hi), spec_decode_register(lo)) {
            (Some(dst), Some(src)) => if sub == 0x0 {
                Some(Opcode::Mov { dst, src })
            } else if sub == 0x1 {
                Some(Opcode::Add { dst, src })
            } else if sub == 0x2 {
                Some(Opcode::Sub { dst, src })
            } else {
                None
            },
            _ => None,
        }
    } else if group == 0x2 {
        match spec_decode_register(sub) {
            Some(dst) => Some(Opcode::Ldi { dst, value: imm }),
            None => None,
        }
    } else if group == 0x3 {
        Some(Opcode::Jmp { addr })
    } else if group == 0x4 {
        Some(Opcode::Jz { addr })
    } else if group == 0x5 {
        Some(Opcode::Jnz { addr })
    } else if group == 0x6 {
        Some(Opcode::Call { addr })
    } else if group == 0x7 {
        if word == 0x7000 {
            Some(Opcode::Ret)
        } else if sub == 0x1 && lo == 0x0 {
            match spec_decode_register(hi) {
                Some(src) => Some(Opcode::Push { src }),
                None => None,
            }
        } else if sub == 0x2 && lo == 0x0 {
            match spec_decode_register(hi) {
                Some(dst) => Some(Opcode::Pop { dst }),
                None => None,
            }
        } else {
            None
        }
    } else if group == 0x8 {
        Some(Opcode::Ld { addr })
    } else if group == 0x9 {
        Some(Opcode::St { addr })
    } else if group == 0xA {
        if sub == 0x0 {
            match (spec_decode_register(hi), spec_decode_register(lo)) {
                (Some(dst), Some(bot)) => Some(Opcode::Ldg { dst, bot }),
                _ => None,
            }
        } else {
            None
        }
    } else if group == 0xB {
        if sub == 0x0 {
            match (spec_decode_register(hi), spec_decode_register(lo)) {
                (Some(src), Some(bot)) => Some(Opcode::Stg { src, bot }),
                _ => None,
            }
        } else {
            None
        }
    } else if group == 0xC {
        if sub == 0x0 && lo == 0x0 {
            match spec_decode_register(hi) {
                Some(src) => Some(Opcode::Sys { syscall: Syscall::Putc, src }),
                None => None,
            }
        } else {
            None
        }
    } else {
        None
    }
}

/// Decode a 4-bit register code.
pub fn decode_register(code: u8) -> (r: Option<Register>)
    ensures
        r == spec_decode_register(code),
{
    if code == 0x0 {
        Some(Register::R0)
    } else if code == 0x1 {
        Some(Register::R1)
    } else if code == 0x2 {
        Some(Register::R2)
    } else if code == 0x3 {
        Some(Register::R3)
    } else if code == 0x4 {
        Some(Register::R4)
    } else if code == 0x5 {
        Some(Register::R5)
    } else if code == 0x6 {
        Some(Register::R6)
    } else if code == 0x7 {
        Some(Register::R7)
    } else if code == 0xC {
        Some(Register::I)
    } else if code == 0xD {
        Some(Register::SP)
    } else if code == 0xE {
        Some(Register::PC)
    } else if code == 0xF {
        Some(Register::F)
    } else {
        None
    }
}

/// Decode a 16-bit word into an instruction, or reject it.
pub fn decode(word: u16) -> (r: Option<Opcode>)
    ensures
        r == spec_decode(word),
{
    let group = word >> 12;
    let sub = ((word >> 8) & 0xF) as u8;
    let hi = ((word >> 4) & 0xF) as u8;
    let lo = (word & 0xF) as u8;
    let addr = word & 0xFFF;
    let imm = (word & 0xFF) as u8;
    if group == 0x0 {
        if word == 0x0000 {
            Some(Opcode::Nop)
        } else if sub == 0x1 {
            Some(Opcode::Halt { code: imm })
        } else {
            None
        }
    } else if group == 0x1 {
        match (decode_register(hi), decode_register(lo)) {
            (Some(dst), Some(src)) => if sub == 0x0 {
                Some(Opcode::Mov { dst, src })
            } else if sub == 0x1 {
                Some(Opcode::Add { dst, src })
            } else if sub == 0x2 {
                Some(Opcode::Sub { dst, src })
            } else {
                None
            },
            _ => None,
        }
    } else if group == 0x2 {
        match decode_register(sub) {
            Some(dst) => Some(Opcode::Ldi { dst, value: imm }),
            None => None,
        }
    } else if group == 0x3 {
        Some(Opcode::Jmp { addr })
    } else if group == 0x4 {
        Some(Opcode::Jz { addr })
    } else if group == 0x5 {
        Some(Opcode::Jnz { addr })
    } else if group == 0x6 {
        Some(Opcode::Call { addr })
    } else if group == 0x7 {
        if word == 0x7000 {
            Some(Opcode::Ret)
        } else if sub == 0x1 && lo == 0x0 {
            match decode_register(hi) {
                Some(src) => Some(Opcode::Push { src }),
                None => None,
            }
        } else if sub == 0x2 && lo == 0x0 {
            match decode_register(hi) {
                Some(dst) => Some(Opcode::Pop { dst }),
                None => None,
            }
        } else {
            None
        }
    } else if group == 0x8 {
        Some(Opcode::Ld { addr })
    } else if group == 0x9 {
        Some(Opcode::St { addr })
    } else if group == 0xA {
        if sub == 0x0 {
            match (decode_register(hi), decode_register(lo)) {
                (Some(dst), Some(bot)) => Some(Opcode::Ldg { dst, bot }),
                _ => None,
            }
        } else {
            None
        }
    } else if group == 0xB {
        if sub == 0x0 {
            match (decode_register(hi), decode_register(lo)) {
                (Some(src), Some(bot)) => Some(Opcode::Stg { src, bot }),
                _ => None,
            }
        } else {
            None
        }
    } else if group == 0xC {
        if sub == 0x0 && lo == 0x0 {
            match decode_register(hi) {
                Some(src) => Some(Opcode::Sys { syscall: Syscall::Putc, src }),
                None => None,
            }
        } else {
            None
        }
    } else {
        None
    }
}

/// Decoding a register's code gives back the same register.
pub proof fn lemma_register_round_trip(register: Register)
    ensures
        spec_decode_register(spec_encode_register(register)) == Some(register),
{
}

/// Encoding is injective: two well-formed instructions with the same
/// encoding are the same instruction.
pub proof fn lemma_encode_injective(a: Opcode, b: Opcode)
    requires
        a.wf(),
        b.wf(),
        spec_encode(a) == spec_encode(b),
    ensures
        a == b,
{
    lemma_encode_decode_round_trip(a);
    lemma_encode_decode_round_trip(b);
}

/// Round-trip law: every well-formed instruction decodes from its own
/// canonical encoding back to itself.
pub proof fn lemma_encode_decode_round_trip(opcode: Opcode)
    requires
        opcode.wf(),
    ensures
        spec_decode(spec_encode(opcode)) == Some(opcode),
{
    match opcode {
        Opcode::Nop => {
            assert(0x0000u16 >> 12 == 0) by (bit_vector);
        },
        Opcode::Halt { code } => {
            assert({
                let w = 0x0100u16 | code as u16;
                w >> 12 == 0 && w != 0 && ((w >> 8) & 0xF) as u8 == 1 && (w & 0xFF) as u8 == code
            }) by (bit_vector);
        },
        Opcode::Mov { dst, src } => {
            let d = spec_encode_register(dst);
            let s = spec_encode_register(src);
            assert(d <= 0xF && s <= 0xF ==> {
                let w = 0x1000u16 | (d as u16) << 4 | s as u16;
                w >> 12 == 1 && ((w >> 8) & 0xF) as u8 == 0 && ((w >> 4) & 0xF) as u8 == d && (w
                    & 0xF) as u8 == s
            }) by (bit_vector);
            lemma_register_round_trip(dst);
            lemma_register_round_trip(src);
        },
        Opcode::Add { dst, src } => {
            let d = spec_encode_register(dst);
            let s = spec_encode_register(src);
            assert(d <= 0xF && s <= 0xF ==> {
                let w = 0x1100u16 | (d as u16) << 4 | s as u16;
                w >> 12 == 1 && ((w >> 8) & 0xF) as u8 == 1 && ((w >> 4) & 0xF) as u8 == d && (w
                    & 0xF) as u8 == s
            }) by (bit_vector);
            lemma_register_round_trip(dst);
            lemma_register_round_trip(src);
        },
        Opcode::Sub { dst, src } => {
            let d = spec_encode_register(dst);
            let s = spec_encode_register(src);
            assert(d <= 0xF && s <= 0xF ==> {
                let w = 0x1200u16 | (d as u16) << 4 | s as u16;
                w >> 12 == 1 && ((w >> 8) & 0xF) as u8 == 2 && ((w >> 4) & 0xF) as u8 == d && (w
                    & 0xF) as u8 == s
            }) by (bit_vector);
            lemma_register_round_trip(dst);
            lemma_register_round_trip(src);
        },
        Opcode::Ldi { dst, value } => {
            let d = spec_encode_register(dst);
            assert(d <= 0xF ==> {
                let w = 0x2000u16 | (d as u16) << 8 | value as u16;
                w >> 12 == 2 && ((w >> 8) & 0xF) as u8 == d && (w & 0xFF) as u8 == value
            }) by (bit_vector);
            lemma_register_round_trip(dst);
        },
        Opcode::Jmp { addr } => {
            assert(addr <= 0xFFF ==> {
                let w = 0x3000u16 | (addr & 0xFFF);
                w >> 12 == 3 && (w & 0xFFF) == addr
            }) by (bit_vector);
        },
        Opcode::Jz { addr } => {
            assert(addr <= 0xFFF ==> {
                let w = 0x4000u16 | (addr & 0xFFF);
                w >> 12 == 4 && (w & 0xFFF) == addr
            }) by (bit_vector);
        },
        Opcode::Jnz { addr } => {
            assert(addr <= 0xFFF ==> {
                let w = 0x5000u16 | (addr & 0xFFF);
                w >> 12 == 5 && (w & 0xFFF) == addr
            }) by (bit_vector);
        },
        Opcode::Call { addr } => {
            assert(addr <= 0xFFF ==> {
                let w = 0x6000u16 | (addr & 0xFFF);
                w >> 12 == 6 && (w & 0xFFF) == addr
            }) by (bit_vector);
        },
        Opcode::Ret => {
            assert(0x7000u16 >> 12 == 7) by (bit_vector);
        },
        Opcode::Push { src } => {
            let s = spec_encode_register(src);
            assert(s <= 0xF ==> {
                let w = 0x7100u16 | (s as u16) << 4;
                w >> 12 == 7 && w != 0x7000 && ((w >> 8) & 0xF) as u8 == 1 && ((w >> 4)
                    & 0xF) as u8 == s && (w & 0xF) as u8 == 0
            }) by (bit_vector);
            lemma_register_round_trip(src);
        },
        Opcode::Pop { dst } => {
            let d = spec_encode_register(dst);
            assert(d <= 0xF ==> {
                let w = 0x7200u16 | (d as u16) << 4;
                w >> 12 == 7 && w != 0x7000 && ((w >> 8) & 0xF) as u8 == 2 && ((w >> 4)
                    & 0xF) as u8 == d && (w & 0xF) as u8 == 0
            }) by (bit_vector);
            lemma_register_round_trip(dst);
        },
        Opcode::Ld { addr } => {
            assert(addr <= 0xFFF ==> {
                let w = 0x8000u16 | (addr & 0xFFF);
                w >> 12 == 8 && (w & 0xFFF) == addr
            }) by (bit_vector);
        },
        Opcode::St { addr } => {
            assert(addr <= 0xFFF ==> {
                let w = 0x9000u16 | (addr & 0xFFF);
                w >> 12 == 9 && (w & 0xFFF) == addr
            }) by (bit_vector);
        },
        Opcode::Ldg { dst, bot } => {
            let d = spec_encode_register(dst);
            let b = spec_encode_register(bot);
            assert(d <= 0xF && b <= 0xF ==> {
                let w = 0xA000u16 | (d as u16) << 4 | b as u16;
                w >> 12 == 0xA && ((w >> 8) & 0xF) as u8 == 0 && ((w >> 4) & 0xF) as u8 == d && (
                w & 0xF) as u8 == b
            }) by (bit_vector);
            lemma_register_round_trip(dst);
            lemma_register_round_trip(bot);
        },
        Opcode::Stg { src, bot } => {
            let s = spec_encode_register(src);
            let b = spec_encode_register(bot);
            assert(s <= 0xF && b <= 0xF ==> {
                let w = 0xB000u16 | (s as u16) << 4 | b as u16;
                w >> 12 == 0xB && ((w >> 8) & 0xF) as u8 == 0 && ((w >> 4) & 0xF) as u8 == s && (
                w & 0xF) as u8 == b
            }) by (bit_vector);
            lemma_register_round_trip(src);
            lemma_register_round_trip(bot);
        },
        Opcode::Sys { syscall, src } => {
            let s = spec_encode_register(src);
            assert(s <= 0xF ==> {
                let w = 0xC000u16 | (s as u16) << 4;
                w >> 12 == 0xC && ((w >> 8) & 0xF) as u8 == 0 && ((w >> 4) & 0xF) as u8 == s && (
                w & 0xF) as u8 == 0
            }) by (bit_vector);
            lemma_register_round_trip(src);
        },
    }
}

} // verus!
