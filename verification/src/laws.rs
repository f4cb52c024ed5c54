//! Machine-wide laws relating several operations.
//!
//! The round-trip law of the instruction codec is
//! `decode::lemma_encode_decode_round_trip`; the laws about iterated
//! stepping are `vm::lemma_steps_of_halted` and `vm::lemma_steps_split`.

use vstd::prelude::*;
use crate::mem::{mailbox_byte_addr, word_at, AGENT_COUNT};
use crate::ops::{spec_call, spec_ldg, spec_ret, spec_stg};
use crate::registers::Register;
use crate::vm::{Role, VmView};
use crate::{MEMORY_SIZE, STACK_SIZE};

verus! {

/// Mailbox isolation. A machine running as an agent reaches only its own
/// mailbox: the state after a global store or a global load does not
/// depend on the operand register at all, and a global-store/global-load
/// pair reads back the byte just stored in the agent's own mailbox,
/// whatever operand registers the two instructions name.
pub proof fn lemma_mailbox_isolation(
    v: VmView,
    id: u8,
    src: Register,
    bot_store: Register,
    dst: Register,
    bot_load: Register,
)
    requires
        v.mem.bytes.len() == MEMORY_SIZE,
        v.role == Role::Bot(id),
        id < AGENT_COUNT,
    ensures
        spec_stg(v, src, bot_store) == spec_stg(v, src, bot_load),
        spec_ldg(v, dst, bot_store) == spec_ldg(v, dst, bot_load),
        spec_stg(v, src, bot_store).mem.bytes == v.mem.bytes.update(
            mailbox_byte_addr(id, v.regs.index),
            v.regs.spec_read(src) as u8,
        ),
        spec_ldg(spec_stg(v, src, bot_store), dst, bot_load).regs.spec_read(dst) == (
        v.regs.spec_read(src) as u8) as u16,
{
    let stored = spec_stg(v, src, bot_store);
    assert(stored.regs == v.regs);
    assert(stored.role == v.role);
    assert(stored.mem.bytes[mailbox_byte_addr(id, v.regs.index)] == v.regs.spec_read(src) as u8);
}

/// Call/return round trip. When a call does not overflow the reserved
/// stack region, the pushed word is exactly the pre-call program
/// counter, and an immediate return restores the whole register file —
/// program counter and stack pointer included — and leaves the halted
/// flag as it was. Only the two pushed stack bytes remain changed in
/// memory.
pub proof fn lemma_call_ret_round_trip(v: VmView, addr: u16)
    requires
        v.mem.bytes.len() == MEMORY_SIZE,
        v.regs.stack_pointer + 2 < STACK_SIZE,
    ensures
        spec_call(v, addr).halted == v.halted,
        spec_call(v, addr).regs.stack_pointer == v.regs.stack_pointer + 2,
        spec_call(v, addr).regs.program_counter == (addr + STACK_SIZE) as u16,
        word_at(
            spec_call(v, addr).mem.bytes,
            (STACK_SIZE - v.regs.stack_pointer - 2) as u16,
        ) == v.regs.program_counter,
        spec_ret(spec_call(v, addr)).regs == v.regs,
        spec_ret(spec_call(v, addr)).halted == v.halted,
        spec_ret(spec_call(v, addr)).mem == spec_call(v, addr).mem,
{
    let sp = v.regs.stack_pointer as int;
    let pc = v.regs.program_counter;
    let called = spec_call(v, addr);
    assert(called.regs.stack_pointer == sp + 2);
    assert(called.mem.bytes[STACK_SIZE - sp - 2] == (pc / 256) as u8);
    assert(called.mem.bytes[STACK_SIZE - sp - 1] == (pc % 256) as u8);
    assert(pc == 256 * (pc / 256) + pc % 256);
    assert(word_at(called.mem.bytes, (STACK_SIZE - sp - 2) as u16) == pc);
    assert(spec_ret(called).regs =~= v.regs);
}

} // verus!
