//! The virtual machine: one explicitly-owned state value holding the
//! memory, the register file, the halted flag, the recorded halt code
//! and the addressing role, mutated by the fetch-decode-execute cycle.
//!
//! Every fatal condition — a fetched word that decodes to no
//! instruction, a program counter past the last valid instruction slot,
//! a stack overflow or underflow, or a global access naming an agent
//! outside the mailbox set — halts the machine. Nothing wraps around
//! silently, and a halted machine never resumes by itself.

use vstd::prelude::*;
use crate::decode::{decode, spec_decode};
use crate::mem::{word_at, Memory, MemView};
use crate::opcodes::Opcode;
use crate::ops::exec_instr;
use crate::registers::{Register, Registers};
use crate::{MEMORY_SIZE, STACK_SIZE};

verus! {

/// The addressing role a machine runs under, set at construction or
/// scenario setup and immutable during execution. An agent (`Bot`) can
/// reach only its own mailbox; the arbiter (`Judge`) can reach any
/// agent's mailbox through an operand register.
#[derive(Debug, Clone, Copy, PartialEq, Eq, Structural)]
pub enum Role {
    /// A specific agent, confined to its own mailbox.
    Bot(u8),
    /// The arbiter, able to address any agent's mailbox.
    Judge,
}

/// The abstract state of a machine.
#[verifier::ext_equal]
pub ghost struct VmView {
    pub mem: MemView,
    pub regs: Registers,
    pub halted: bool,
    pub halt_code: u8,
    pub role: Role,
}

/// The virtual machine.
#[derive(Debug)]
pub struct VirtualMachine {
    /// The 64 KiB address space with its region overlays.
    pub mem: Memory,
    /// The register file.
    pub registers: Registers,
    /// Whether the machine has halted. Terminal: the engine never clears
    /// it.
    pub halted: bool,
    /// The code recorded by the last halt instruction.
    pub halt_code: u8,
    /// The addressing role; immutable during execution.
    pub role: Role,
}

impl View for VirtualMachine {
    type V = VmView;

    open spec fn view(&self) -> VmView {
        VmView {
            mem: self.mem@,
            regs: self.registers,
            halted: self.halted,
            halt_code: self.halt_code,
            role: self.role,
        }
    }
}

/// Whether an instruction's operands let every arithmetic step of its
/// handler stay in range: the call target must still be a valid address
/// after the code-region offset is added. Every decoded instruction
/// satisfies this.
pub open spec fn op_in_range(op: Opcode) -> bool {
    match op {
        Opcode::Call { addr } => addr + STACK_SIZE <= 0xFFFF,
        _ => true,
    }
}

/// Every well-formed instruction is in range.
pub proof fn lemma_wf_op_in_range(op: Opcode)
    requires
        op.wf(),
    ensures
        op_in_range(op),
{
}

/// Every instruction a word decodes to is well-formed: its address
/// operands fit in 12 bits.
pub proof fn lemma_decoded_wf(word: u16)
    ensures
        spec_decode(word) is Some ==> spec_decode(word).unwrap().wf(),
{
    assert(word & 0xFFF <= 0xFFF) by (bit_vector);
}

/// One step of the fetch-decode-execute cycle. A halted machine does not
/// change. Otherwise: if the program counter is past the last valid
/// instruction slot the machine halts; else the program counter advances
/// by one instruction word (saturating at the top of the address space)
/// before dispatch, the word at the pre-advance address is fetched, and
/// either it decodes to no instruction and the machine halts, or the
/// instruction executes.
pub open spec fn spec_step(v: VmView) -> VmView {
    if v.halted {
        v
    } else {
        let pc = v.regs.program_counter;
        if pc >= 0xFFFF {
            VmView { halted: true, ..v }
        } else {
            let advanced = VmView {
                regs: v.regs.spec_write(
                    Register::PC,
                    if pc + 2 > 0xFFFF {
                        0xFFFF
                    } else {
                        (pc + 2) as u16
                    },
                ),
                ..v
            };
            match spec_decode(word_at(v.mem.bytes, pc)) {
                Option::None => VmView { halted: true, ..advanced },
                Option::Some(op) => exec_instr(advanced, op),
            }
        }
    }
}

/// The state `n` steps after `v`.
pub open spec fn spec_steps(n: nat, v: VmView) -> VmView
    decreases n,
{
    if n == 0 {
        v
    } else {
        spec_step(spec_steps((n - 1) as nat, v))
    }
}

/// The step budget of `run`: large enough that exhausting it without a
/// halt is unreachable in practice.
pub const RUN_FUEL: u64 = 0xFFFF_FFFF_FFFF_FFFF;

/// Stepping a halted machine changes nothing, however many steps are
/// taken: every fatal condition and the halt instruction are terminal.
pub proof fn lemma_steps_of_halted(n: nat, v: VmView)
    requires
        v.halted,
    ensures
        spec_steps(n, v) == v,
    decreases n,
{
    if n > 0 {
        lemma_steps_of_halted((n - 1) as nat, v);
    }
}

/// Iterated stepping composes: `a + b` steps are `a` steps followed by
/// `b` steps.
pub proof fn lemma_steps_split(a: nat, b: nat, v: VmView)
    ensures
        spec_steps(a + b, v) == spec_steps(b, spec_steps(a, v)),
    decreases b,
{
    if b > 0 {
        lemma_steps_split(a, (b - 1) as nat, v);
        assert(a + b - 1 == (a + b - 1) as nat);
    }
}

impl VirtualMachine {
    /// Well-formedness: the memory spans the whole address space.
    pub open spec fn wf(self) -> bool {
        self.mem.wf()
    }

    /// A fresh machine: memory zeroed, every register zero except the
    /// program counter, which starts at the base of the code region just
    /// above the reserved stack, not halted, running as the arbiter.
    pub fn new() -> (r: VirtualMachine)
        ensures
            r.wf(),
            r@.regs == (Registers { program_counter: STACK_SIZE, ..Registers::spec_zeroed() }),
            forall|a: int| 0 <= a < MEMORY_SIZE ==> r@.mem.bytes[a] == 0,
            r@.mem.console == Seq::<u8>::empty(),
            !r@.halted,
            r@.halt_code == 0,
            r@.role == Role::Judge,
    {
        let mut registers = Registers::default();
        registers.write(Register::PC, STACK_SIZE);
        VirtualMachine {
            mem: Memory::new(),
            registers,
            halted: false,
            halt_code: 0,
            role: Role::Judge,
        }
    }

    /// Load a program image into memory at the base of the code region,
    /// just above the reserved stack. The binary format is a flat
    /// sequence of 16-bit big-endian instruction words.
    pub fn load_memory(&mut self, data: &[u8])
        requires
            old(self).wf(),
            STACK_SIZE + data@.len() <= MEMORY_SIZE,
        ensures
            final(self).wf(),
            forall|i: int|
                0 <= i < data@.len() ==> final(self)@.mem.bytes[STACK_SIZE + i] == data@[i],
            forall|a: int|
                0 <= a < MEMORY_SIZE && !(STACK_SIZE <= a < STACK_SIZE + data@.len())
                    ==> final(self)@.mem.bytes[a] == old(self)@.mem.bytes[a],
            final(self)@.mem.console == old(self)@.mem.console,
            final(self)@.regs == old(self)@.regs,
            final(self)@.halted == old(self)@.halted,
            final(self)@.halt_code == old(self)@.halt_code,
            final(self)@.role == old(self)@.role,
    {
        self.mem.load_image(STACK_SIZE, data);
    }

    /// Execute a single, already-decoded instruction.
    pub fn execute(&mut self, instruction: &Opcode)
        requires
            old(self).wf(),
            op_in_range(*instruction),
        ensures
            final(self).wf(),
            final(self)@ == exec_instr(old(self)@, *instruction),
    {
        match instruction {
            Opcode::Nop => {},
            Opcode::Halt { code } => self.halt(*code),
            Opcode::Mov { dst, src } => self.mov(*dst, *src),
            Opcode::Add { dst, src } => self.add(*dst, *src),
            Opcode::Sub { dst, src } => self.sub(*dst, *src),
            Opcode::Ldi { dst, value } => self.ldi(*dst, *value),
            Opcode::Jmp { addr } => self.jmp(*addr),
            Opcode::Jz { addr } => self.jz(*addr),
            Opcode::Jnz { addr } => self.jnz(*addr),
            Opcode::Call { addr } => self.call(*addr),
            Opcode::Ret => self.ret(),
            Opcode::Push { src } => self.push(*src),
            Opcode::Pop { dst } => self.pop(*dst),
            Opcode::Ld { addr } => self.ld(Register::R0, *addr),
            Opcode::St { addr } => self.st(*addr),
            Opcode::Ldg { dst, bot } => self.ldg(*dst, *bot),
            Opcode::Stg { src, bot } => self.stg(*src, *bot),
            Opcode::Sys { syscall, src } => self.sys(*syscall, *src),
        }
    }

    /// One step of the fetch-decode-execute cycle.
    pub fn step(&mut self)
        requires
            old(self).wf(),
        ensures
            final(self).wf(),
            final(self)@ == spec_step(old(self)@),
    {
        if self.halted {
            return;
        }
        let pc = self.registers.read(Register::PC);
        if pc >= 0xFFFF {
            self.halted = true;
            proof {
                assert(self@ =~= spec_step(old(self)@));
            }
            return;
        }
        let word = self.mem.fetch_word(pc);
        let next_pc: u16 = if pc >= 0xFFFE {
            0xFFFF
        } else {
            pc + 2
        };
        self.registers.write(Register::PC, next_pc);
        match decode(word) {
            Option::None => {
                self.halted = true;
                proof {
                    assert(self@ =~= spec_step(old(self)@));
                }
            },
            Option::Some(op) => {
                proof {
                    lemma_decoded_wf(word);
                    lemma_wf_op_in_range(op);
                }
                self.execute(&op);
            },
        }
    }

    /// Run the fetch-decode-execute cycle until the machine halts, up to
    /// `RUN_FUEL` steps. Since a halted machine no longer changes, the
    /// final state is exactly the state `RUN_FUEL` steps after the start,
    /// and the loop stops early at the first halt.
    pub fn run(&mut self)
        requires
            old(self).wf(),
        ensures
            final(self).wf(),
            final(self)@ == spec_steps(RUN_FUEL as nat, old(self)@),
            (exists|n: nat|
                #![auto]
                n <= RUN_FUEL && final(self)@ == spec_steps(n, old(self)@) && (final(self)@.halted
                    || n == RUN_FUEL)),
    {
        let mut fuel: u64 = 0;
        proof {
            assert(self@ == spec_steps(0, old(self)@));
        }
        while !self.halted && fuel < RUN_FUEL
            invariant
                self.wf(),
                fuel <= RUN_FUEL,
                self@ == spec_steps(fuel as nat, old(self)@),
            decreases RUN_FUEL - fuel,
        {
            self.step();
            fuel = fuel + 1;
        }
        proof {
            if self.halted && fuel < RUN_FUEL {
                lemma_steps_split(fuel as nat, (RUN_FUEL - fuel) as nat, old(self)@);
                lemma_steps_of_halted((RUN_FUEL - fuel) as nat, self@);
            }
            assert(fuel as nat <= RUN_FUEL && self@ == spec_steps(fuel as nat, old(self)@) && (
            self@.halted || fuel == RUN_FUEL));
        }
    }
}

impl Default for VirtualMachine {
    /// A fresh machine, as `new` makes it.
    fn default() -> (r: VirtualMachine)
        ensures
            r.wf(),
            r@.regs == (Registers { program_counter: STACK_SIZE, ..Registers::spec_zeroed() }),
            forall|a: int| 0 <= a < MEMORY_SIZE ==> r@.mem.bytes[a] == 0,
            r@.mem.console == Seq::<u8>::empty(),
            !r@.halted,
            r@.halt_code == 0,
            r@.role == Role::Judge,
    {
        VirtualMachine::new()
    }
}

} // verus!
