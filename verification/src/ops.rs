//! Per-opcode semantics.
//!
//! Each opcode has a specification function from machine state to
//! machine state and an executable method proved equal to it. Every ALU
//! operation recomputes the whole flag register from scratch: zero, carry
//! (carry-out for add, borrow for subtract), negative (bit 7 of the
//! 8-bit result) and signed 8-bit overflow.

use vstd::prelude::*;
use crate::mem::{
    mailbox_byte_addr, mem_read_step, mem_write, word_at, MemView, AGENT_COUNT, CONSOLE_PORT,
};
use crate::opcodes::{Opcode, Syscall};
use crate::registers::{Register, C_FLAG, N_FLAG, V_FLAG, Z_FLAG};
use crate::vm::{Role, VirtualMachine, VmView};
use crate::STACK_SIZE;

verus! {

/// The flag byte with the given zero, carry, negative and overflow bits.
pub open spec fn spec_flags(z: bool, c: bool, n: bool, v: bool) -> u8 {
    ((if z {
        Z_FLAG as int
    } else {
        0
    }) + (if c {
        C_FLAG as int
    } else {
        0
    }) + (if n {
        N_FLAG as int
    } else {
        0
    }) + (if v {
        V_FLAG as int
    } else {
        0
    })) as u8
}

/// Whether the zero flag is set in a flag byte.
pub open spec fn zero_flag_set(flags: u8) -> bool {
    flags % 2 == 1
}

/// The conditional jumps read back exactly the zero bit an ALU operation
/// wrote: the flag byte's low bit is the zero flag, whatever the other
/// flags are.
pub proof fn lemma_zero_flag_readback(z: bool, c: bool, n: bool, v: bool)
    ensures
        zero_flag_set(spec_flags(z, c, n, v)) == z,
{
}

/// Halt: the machine stops and records `code` for external inspection.
pub open spec fn spec_halt(v: VmView, code: u8) -> VmView {
    VmView { halted: true, halt_code: code, ..v }
}

/// Move: `dst = src`, truncated to the destination's native width.
pub open spec fn spec_mov(v: VmView, dst: Register, src: Register) -> VmView {
    VmView { regs: v.regs.spec_write(dst, v.regs.spec_read(src)), ..v }
}

/// Add: `dst = dst + src`, computed wide enough to detect carry. Flags
/// are recomputed from scratch: zero if the result's low 8 bits are
/// zero, carry if the mathematical sum exceeds 255, negative if bit 7 of
/// the result is set, overflow if the low bytes overflow as a signed
/// 8-bit addition. The result is truncated to the destination's width.
pub open spec fn spec_add(v: VmView, dst: Register, src: Register) -> VmView {
    let a = v.regs.spec_read(dst) as int;
    let b = v.regs.spec_read(src) as int;
    let sum = a + b;
    let low = sum % 256;
    let flags = spec_flags(
        low == 0,
        sum > 255,
        low >= 128,
        (a % 256 < 128 && b % 256 < 128 && low >= 128) || (a % 256 >= 128 && b % 256 >= 128 && low
            < 128),
    );
    VmView {
        regs: v.regs.spec_write(dst, (sum % 0x10000) as u16).spec_write(Register::F, flags as u16),
        ..v
    }
}

/// The 8-bit operand a subtract uses for a register value: the value
/// itself if it fits in 8 bits, otherwise zero.
pub open spec fn spec_sub_operand(value: u16) -> u8 {
    if value <= 255 {
        value as u8
    } else {
        0
    }
}

/// Subtract: `dst = dst - src` with 8-bit wraparound. Flags are
/// recomputed from scratch: zero if the result is zero, carry on borrow,
/// negative if bit 7 of the result is set, overflow on signed 8-bit
/// overflow.
pub open spec fn spec_sub(v: VmView, dst: Register, src: Register) -> VmView {
    let a = spec_sub_operand(v.regs.spec_read(dst));
    let b = spec_sub_operand(v.regs.spec_read(src));
    let diff = (if a >= b {
        a as int - b as int
    } else {
        256 + a - b
    }) as u8;
    let flags = spec_flags(
        diff == 0,
        a < b,
        diff >= 128,
        (a >= 128 && b < 128 && diff < 128) || (a < 128 && b >= 128 && diff >= 128),
    );
    VmView {
        regs: v.regs.spec_write(dst, diff as u16).spec_write(Register::F, flags as u16),
        ..v
    }
}

/// Load immediate: `dst = value`.
pub open spec fn spec_ldi(v: VmView, dst: Register, value: u8) -> VmView {
    VmView { regs: v.regs.spec_write(dst, value as u16), ..v }
}

/// Jump: `pc = addr`.
pub open spec fn spec_jmp(v: VmView, addr: u16) -> VmView {
    VmView { regs: v.regs.spec_write(Register::PC, addr), ..v }
}

/// Jump if zero: `pc = addr` when the zero flag is set.
pub open spec fn spec_jz(v: VmView, addr: u16) -> VmView {
    if zero_flag_set(v.regs.flag) {
        spec_jmp(v, addr)
    } else {
        v
    }
}

/// Jump if not zero: `pc = addr` when the zero flag is clear.
pub open spec fn spec_jnz(v: VmView, addr: u16) -> VmView {
    if !zero_flag_set(v.regs.flag) {
        spec_jmp(v, addr)
    } else {
        v
    }
}

/// Call: when the two return-address bytes would not fit in the reserved
/// stack region the machine halts with everything else unchanged.
/// Otherwise the program counter is pushed big-endian, the stack pointer
/// advances by 2, and execution continues at `addr` translated into the
/// code region, which starts above the reserved stack.
pub open spec fn spec_call(v: VmView, addr: u16) -> VmView {
    let sp = v.regs.stack_pointer as int;
    let pc = v.regs.program_counter;
    if sp + 2 >= STACK_SIZE {
        VmView { halted: true, ..v }
    } else {
        VmView {
            mem: MemView {
                bytes: v.mem.bytes.update(STACK_SIZE - sp - 2, (pc / 256) as u8).update(
                    STACK_SIZE - sp - 1,
                    (pc % 256) as u8,
                ),
                ..v.mem
            },
            regs: v.regs.spec_write(Register::SP, (sp + 2) as u16).spec_write(
                Register::PC,
                (addr + STACK_SIZE) as u16,
            ),
            ..v
        }
    }
}

/// Return: when fewer than two bytes are on the stack the machine halts
/// with everything else unchanged. Otherwise a 16-bit return address is
/// popped into the program counter and the stack pointer retreats by 2.
pub open spec fn spec_ret(v: VmView) -> VmView {
    let sp = v.regs.stack_pointer as int;
    if sp < 2 {
        VmView { halted: true, ..v }
    } else {
        let addr = word_at(v.mem.bytes, (STACK_SIZE - sp) as u16);
        VmView {
            regs: v.regs.spec_write(Register::SP, (sp - 2) as u16).spec_write(Register::PC, addr),
            ..v
        }
    }
}

/// Push: when one more byte would not fit in the reserved stack region
/// the machine halts with everything else unchanged. Otherwise the low
/// byte of `src` is pushed and the stack pointer advances by 1.
pub open spec fn spec_push(v: VmView, src: Register) -> VmView {
    let sp = v.regs.stack_pointer as int;
    if sp + 1 >= STACK_SIZE {
        VmView { halted: true, ..v }
    } else {
        VmView {
            mem: MemView {
                bytes: v.mem.bytes.update(
                    STACK_SIZE - sp - 1,
                    v.regs.spec_read(src) as u8,
                ),
                ..v.mem
            },
            regs: v.regs.spec_write(Register::SP, (sp + 1) as u16),
            ..v
        }
    }
}

/// Pop: when the stack is empty the machine halts with everything else
/// unchanged. Otherwise one byte is popped into `dst` and the stack
/// pointer retreats by 1.
pub open spec fn spec_pop(v: VmView, dst: Register) -> VmView {
    let sp = v.regs.stack_pointer as int;
    if sp == 0 {
        VmView { halted: true, ..v }
    } else {
        let value = v.mem.bytes[STACK_SIZE - sp];
        VmView {
            regs: v.regs.spec_write(Register::SP, (sp - 1) as u16).spec_write(dst, value as u16),
            ..v
        }
    }
}

/// Direct load: one routed byte read from `addr` into register `R0`.
pub open spec fn spec_ld(v: VmView, dst: Register, addr: u16) -> VmView {
    VmView {
        mem: mem_read_step(v.mem, addr),
        regs: v.regs.spec_write(dst, v.mem.bytes[addr as int] as u16),
        ..v
    }
}

/// Direct store: one routed byte write of the low byte of register `R7`
/// to `addr`.
pub open spec fn spec_st(v: VmView, addr: u16) -> VmView {
    VmView { mem: mem_write(v.mem, addr, v.regs.spec_read(Register::R7) as u8), ..v }
}

/// The agent whose mailbox a global access touches. An agent role always
/// addresses its own mailbox, whatever the operand register holds; the
/// arbiter addresses the agent named by the low byte of the operand
/// register.
pub open spec fn spec_global_agent(v: VmView, bot: Register) -> u8 {
    match v.role {
        Role::Bot(id) => id,
        Role::Judge => v.regs.spec_read(bot) as u8,
    }
}

/// Global load: read the selected mailbox at the offset held in the
/// index register into `dst`. Naming an agent outside the mailbox set is
/// an address fault and halts the machine.
pub open spec fn spec_ldg(v: VmView, dst: Register, bot: Register) -> VmView {
    let agent = spec_global_agent(v, bot);
    if agent >= AGENT_COUNT {
        VmView { halted: true, ..v }
    } else {
        VmView {
            regs: v.regs.spec_write(
                dst,
                v.mem.bytes[mailbox_byte_addr(agent, v.regs.index)] as u16,
            ),
            ..v
        }
    }
}

/// Global store: write the low byte of `src` into the selected mailbox
/// at the offset held in the index register. Naming an agent outside the
/// mailbox set is an address fault and halts the machine.
pub open spec fn spec_stg(v: VmView, src: Register, bot: Register) -> VmView {
    let agent = spec_global_agent(v, bot);
    if agent >= AGENT_COUNT {
        VmView { halted: true, ..v }
    } else {
        VmView {
            mem: MemView {
                bytes: v.mem.bytes.update(
                    mailbox_byte_addr(agent, v.regs.index),
                    v.regs.spec_read(src) as u8,
                ),
                ..v.mem
            },
            ..v
        }
    }
}

/// System call: `Putc` writes the low byte of `src` through the console
/// port, appending it to the console side channel.
pub open spec fn spec_sys(v: VmView, syscall: Syscall, src: Register) -> VmView {
    match syscall {
        Syscall::Putc => VmView {
            mem: mem_write(v.mem, CONSOLE_PORT, v.regs.spec_read(src) as u8),
            ..v
        },
    }
}

/// The state after executing one already-decoded instruction. The fetch
/// cycle around it is `spec_step`.
pub open spec fn exec_instr(v: VmView, op: Opcode) -> VmView {
    match op {
        Opcode::Nop => v,
        Opcode::Halt { code } => spec_halt(v, code),
        Opcode::Mov { dst, src } => spec_mov(v, dst, src),
        Opcode::Add { dst, src } => spec_add(v, dst, src),
        Opcode::Sub { dst, src } => spec_sub(v, dst, src),
        Opcode::Ldi { dst, value } => spec_ldi(v, dst, value),
        Opcode::Jmp { addr } => spec_jmp(v, addr),
        Opcode::Jz { addr } => spec_jz(v, addr),
        Opcode::Jnz { addr } => spec_jnz(v, addr),
        Opcode::Call { addr } => spec_call(v, addr),
        Opcode::Ret => spec_ret(v),
        Opcode::Push { src } => spec_push(v, src),
        Opcode::Pop { dst } => spec_pop(v, dst),
        Opcode::Ld { addr } => spec_ld(v, Register::R0, addr),
        Opcode::St { addr } => spec_st(v, addr),
        Opcode::Ldg { dst, bot } => spec_ldg(v, dst, bot),
        Opcode::Stg { src, bot } => spec_stg(v, src, bot),
        Opcode::Sys { syscall, src } => spec_sys(v, syscall, src),
    }
}

impl VirtualMachine {
    /// Halt the machine, recording `code` for external inspection.
    pub fn halt(&mut self, code: u8)
        ensures
            final(self)@ == spec_halt(old(self)@, code),
    {
        self.halted = true;
        self.halt_code = code;
        proof {
            assert(self@ =~= spec_halt(old(self)@, code));
        }
    }

    /// Move the value of register `src` into register `dst`.
    pub fn mov(&mut self, dst: Register, src: Register)
        ensures
            final(self)@ == spec_mov(old(self)@, dst, src),
    {
        let value = self.registers.read(src);
        self.registers.write(dst, value);
        proof {
            assert(self@ =~= spec_mov(old(self)@, dst, src));
        }
    }

    /// Add `src` to `dst` and recompute all flags.
    pub fn add(&mut self, dst: Register, src: Register)
        ensures
            final(self)@ == spec_add(old(self)@, dst, src),
    {
        let a = self.registers.read(dst);
        let b = self.registers.read(src);
        let sum: u32 = a as u32 + b as u32;
        let low: u32 = sum % 256;
        let mut flags: u8 = 0;
        if low == 0 {
            flags = flags + Z_FLAG;
        }
        if sum > 255 {
            flags = flags + C_FLAG;
        }
        if low >= 128 {
            flags = flags + N_FLAG;
        }
        let a_low: u16 = a % 256;
        let b_low: u16 = b % 256;
        if (a_low < 128 && b_low < 128 && low >= 128) || (a_low >= 128 && b_low >= 128 && low
            < 128) {
            flags = flags + V_FLAG;
        }
        self.registers.write(dst, (sum % 0x10000) as u16);
        self.registers.write(Register::F, flags as u16);
        proof {
            assert(self@ =~= spec_add(old(self)@, dst, src));
        }
    }

    /// Subtract `src` from `dst` with 8-bit wraparound and recompute all
    /// flags.
    #[verifier::rlimit(50)]
    pub fn sub(&mut self, dst: Register, src: Register)
        ensures
            final(self)@ == spec_sub(old(self)@, dst, src),
    {
        let a_wide = self.registers.read(dst);
        let b_wide = self.registers.read(src);
        let a: u8 = if a_wide <= 255 {
            a_wide as u8
        } else {
            0
        };
        let b: u8 = if b_wide <= 255 {
            b_wide as u8
        } else {
            0
        };
        let diff: u8 = if a >= b {
            a - b
        } else {
            (256 + a as u16 - b as u16) as u8
        };
        let mut flags: u8 = 0;
        if diff == 0 {
            flags = flags + Z_FLAG;
        }
        if a < b {
            flags = flags + C_FLAG;
        }
        if diff >= 128 {
            flags = flags + N_FLAG;
        }
        if (a >= 128 && b < 128 && diff < 128) || (a < 128 && b >= 128 && diff >= 128) {
            flags = flags + V_FLAG;
        }
        self.registers.write(dst, diff as u16);
        self.registers.write(Register::F, flags as u16);
        proof {
            assert(self@ =~= spec_sub(old(self)@, dst, src));
        }
    }

    /// Load the immediate `value` into register `dst`.
    pub fn ldi(&mut self, dst: Register, value: u8)
        ensures
            final(self)@ == spec_ldi(old(self)@, dst, value),
    {
        self.registers.write(dst, value as u16);
        proof {
            assert(self@ =~= spec_ldi(old(self)@, dst, value));
        }
    }

    /// Jump to `addr`.
    pub fn jmp(&mut self, addr: u16)
        ensures
            final(self)@ == spec_jmp(old(self)@, addr),
    {
        self.registers.write(Register::PC, addr);
        proof {
            assert(self@ =~= spec_jmp(old(self)@, addr));
        }
    }

    /// Jump to `addr` if the zero flag is set.
    pub fn jz(&mut self, addr: u16)
        ensures
            final(self)@ == spec_jz(old(self)@, addr),
    {
        let flags = self.registers.read(Register::F);
        if flags % 2 == 1 {
            self.jmp(addr);
        }
        proof {
            assert(self@ =~= spec_jz(old(self)@, addr));
        }
    }

    /// Jump to `addr` if the zero flag is clear.
    pub fn jnz(&mut self, addr: u16)
        ensures
            final(self)@ == spec_jnz(old(self)@, addr),
    {
        let flags = self.registers.read(Register::F);
        if flags % 2 != 1 {
            self.jmp(addr);
        }
        proof {
            assert(self@ =~= spec_jnz(old(self)@, addr));
        }
    }

    /// Call the subroutine at `addr`. A call that would overflow the
    /// reserved stack region halts the machine and changes nothing else;
    /// otherwise the program counter is pushed and execution continues at
    /// `addr` offset by the stack region's size.
    pub fn call(&mut self, addr: u16)
        requires
            old(self).wf(),
            addr + STACK_SIZE <= 0xFFFF,
        ensures
            final(self).wf(),
            final(self)@ == spec_call(old(self)@, addr),
    {
        let stack_pointer = self.registers.read(Register::SP);
        let program_counter = self.registers.read(Register::PC);
        if stack_pointer + 2 >= STACK_SIZE {
            self.halted = true;
            proof {
                assert(self@ =~= spec_call(old(self)@, addr));
            }
            return;
        }
        let stack_pointer = self.mem.push_u16(stack_pointer, program_counter);
        self.registers.write(Register::SP, stack_pointer);
        self.registers.write(Register::PC, addr + STACK_SIZE);
        proof {
            assert(self@ =~= spec_call(old(self)@, addr));
        }
    }

    /// Return from a subroutine. A return with fewer than two bytes on
    /// the stack halts the machine and changes nothing else.
    pub fn ret(&mut self)
        requires
            old(self).wf(),
        ensures
            final(self).wf(),
            final(self)@ == spec_ret(old(self)@),
    {
        let stack_pointer = self.registers.read(Register::SP);
        if stack_pointer < 2 {
            self.halted = true;
            proof {
                assert(self@ =~= spec_ret(old(self)@));
            }
            return;
        }
        let (addr, stack_pointer) = self.mem.pop_u16(stack_pointer);
        self.registers.write(Register::SP, stack_pointer);
        self.registers.write(Register::PC, addr);
        proof {
            assert(self@ =~= spec_ret(old(self)@));
        }
    }

    /// Push the low byte of register `src` onto the stack. A push that
    /// would overflow the reserved stack region halts the machine and
    /// changes nothing else.
    pub fn push(&mut self, src: Register)
        requires
            old(self).wf(),
        ensures
            final(self).wf(),
            final(self)@ == spec_push(old(self)@, src),
    {
        let stack_pointer = self.registers.read(Register::SP);
        if stack_pointer + 1 >= STACK_SIZE {
            self.halted = true;
            proof {
                assert(self@ =~= spec_push(old(self)@, src));
            }
            return;
        }
        let value = self.registers.read(src);
        let stack_pointer = self.mem.push_u8(stack_pointer, value as u8);
        self.registers.write(Register::SP, stack_pointer);
        proof {
            assert(self@ =~= spec_push(old(self)@, src));
        }
    }

    /// Pop one byte from the stack into register `dst`. A pop from an
    /// empty stack halts the machine and changes nothing else.
    pub fn pop(&mut self, dst: Register)
        requires
            old(self).wf(),
        ensures
            final(self).wf(),
            final(self)@ == spec_pop(old(self)@, dst),
    {
        let stack_pointer = self.registers.read(Register::SP);
        if stack_pointer == 0 {
            self.halted = true;
            proof {
                assert(self@ =~= spec_pop(old(self)@, dst));
            }
            return;
        }
        let (value, stack_pointer) = self.mem.pop_u8(stack_pointer);
        self.registers.write(Register::SP, stack_pointer);
        self.registers.write(dst, value as u16);
        proof {
            assert(self@ =~= spec_pop(old(self)@, dst));
        }
    }

    /// Load one byte from memory address `addr` into register `dst`,
    /// going through the region router.
    pub fn ld(&mut self, dst: Register, addr: u16)
        requires
            old(self).wf(),
        ensures
            final(self).wf(),
            final(self)@ == spec_ld(old(self)@, dst, addr),
    {
        let value = self.mem.read_u8(addr);
        self.registers.write(dst, value as u16);
        proof {
            assert(self@ =~= spec_ld(old(self)@, dst, addr));
        }
    }

    /// Store the low byte of register `R7` to memory address `addr`,
    /// going through the region router.
    pub fn st(&mut self, addr: u16)
        requires
            old(self).wf(),
        ensures
            final(self).wf(),
            final(self)@ == spec_st(old(self)@, addr),
    {
        let value = self.registers.read(Register::R7);
        self.mem.write_u8(addr, value as u8);
        proof {
            assert(self@ =~= spec_st(old(self)@, addr));
        }
    }

    /// Global load: read the mailbox selected by the addressing role at
    /// the offset held in the index register into register `dst`. An
    /// agent always reads its own mailbox; the arbiter reads the mailbox
    /// of the agent named by register `bot`.
    pub fn ldg(&mut self, dst: Register, bot: Register)
        requires
            old(self).wf(),
        ensures
            final(self).wf(),
            final(self)@ == spec_ldg(old(self)@, dst, bot),
    {
        let offset = self.registers.read(Register::I) as u8;
        let agent = match self.role {
            Role::Bot(id) => id,
            Role::Judge => self.registers.read(bot) as u8,
        };
        if agent >= AGENT_COUNT {
            self.halted = true;
            proof {
                assert(self@ =~= spec_ldg(old(self)@, dst, bot));
            }
            return;
        }
        let value = self.mem.mailbox_read(agent, offset);
        self.registers.write(dst, value as u16);
        proof {
            assert(self@ =~= spec_ldg(old(self)@, dst, bot));
        }
    }

    /// Global store: write the low byte of register `src` into the
    /// mailbox selected by the addressing role at the offset held in the
    /// index register. An agent always writes its own mailbox; the
    /// arbiter writes the mailbox of the agent named by register `bot`.
    pub fn stg(&mut self, src: Register, bot: Register)
        requires
            old(self).wf(),
        ensures
            final(self).wf(),
            final(self)@ == spec_stg(old(self)@, src, bot),
    {
        let offset = self.registers.read(Register::I) as u8;
        let value = self.registers.read(src);
        let agent = match self.role {
            Role::Bot(id) => id,
            Role::Judge => self.registers.read(bot) as u8,
        };
        if agent >= AGENT_COUNT {
            self.halted = true;
            proof {
                assert(self@ =~= spec_stg(old(self)@, src, bot));
            }
            return;
        }
        self.mem.mailbox_write(agent, offset, value as u8);
        proof {
            assert(self@ =~= spec_stg(old(self)@, src, bot));
        }
    }

    /// Perform the system call `syscall` with the value of register
    /// `src`. `Putc` writes one byte through the console port.
    pub fn sys(&mut self, syscall: Syscall, src: Register)
        requires
            old(self).wf(),
        ensures
            final(self).wf(),
            final(self)@ == spec_sys(old(self)@, syscall, src),
    {
        match syscall {
            Syscall::Putc => self.sys_putc(src),
        }
        proof {
            assert(self@ =~= spec_sys(old(self)@, syscall, src));
        }
    }

    /// Write the low byte of register `src` as a character to the
    /// console side channel, through the console port.
    fn sys_putc(&mut self, src: Register)
        requires
            old(self).wf(),
        ensures
            final(self).wf(),
            final(self)@ == (VmView {
                mem: mem_write(old(self)@.mem, CONSOLE_PORT, old(self)@.regs.spec_read(src) as u8),
                ..old(self)@
            }),
    {
        let value = self.registers.read(src);
        self.mem.write_u8(CONSOLE_PORT, value as u8);
        proof {
            assert(self@ =~= VmView {
                mem: mem_write(old(self)@.mem, CONSOLE_PORT, old(self)@.regs.spec_read(src) as u8),
                ..old(self)@
            });
        }
    }
}

} // verus!
