//! Memory and the region router.
//!
//! The whole 64 KiB address space is one owned byte array. A fixed set of
//! non-overlapping address ranges ("regions") is layered over it: the
//! reserved stack at the bottom, the per-agent mailboxes, the flat-file
//! storage image, the bit-packed frame buffer, and the console, random
//! number and keyboard ports. Every routed access resolves to exactly one
//! region; regions keep their bytes in the same backing array, and only
//! the console port (which appends to an output side channel) and the
//! random number port (which steps its generator when read) have side
//! effects. The region set is fixed; it never changes at runtime.
//!
//! All 16-bit values in memory are stored big-endian: high byte first.
//! This holds for instruction words and for return addresses alike.

use vstd::prelude::*;
use crate::regions::{GraphicBufferRegion, MailboxRegion};
use crate::{MEMORY_SIZE, STACK_SIZE};

verus! {

/// First byte of the per-agent mailbox area.
pub const MAILBOX_BASE: u16 = 0x7000;

/// Size of one agent's mailbox in bytes.
pub const MAILBOX_SIZE: u16 = 0x100;

/// Number of agent mailboxes. Global accesses naming an agent outside
/// this range are an address fault and halt the machine.
pub const AGENT_COUNT: u8 = 16;

/// First byte of the flat-file storage region.
pub const STORAGE_BASE: u16 = 0x8000;

/// Size of the storage region in bytes.
pub const STORAGE_SIZE: u16 = 0x4000;

/// First byte of the bit-packed frame buffer: 1 bit per pixel,
/// most-significant bit first, `BYTES_PER_ROW` bytes per row.
pub const FRAME_BUFFER_BASE: u16 = 0xF000;

/// Size of the frame buffer in bytes.
pub const FRAME_BUFFER_SIZE: u16 = 0x100;

/// Bytes in one frame-buffer row, so the display is 64 pixels wide.
pub const BYTES_PER_ROW: u16 = 8;

/// Console output port: a write appends the byte to the console side
/// channel read by the host.
pub const CONSOLE_PORT: u16 = 0xFF00;

/// Random number port: a read returns the generator's current byte and
/// steps the generator. The host seeds it by writing a nonzero byte.
pub const RNG_PORT: u16 = 0xFF01;

/// Keyboard input port: the host writes the bytes it translates key
/// presses into; the machine reads them as plain memory.
pub const KEYBOARD_PORT: u16 = 0xFF02;

/// The closed set of region kinds an address can resolve to.
#[derive(Debug, Clone, Copy, PartialEq, Eq, Structural)]
pub enum RegionKind {
    /// Plain backing memory, including the reserved stack range.
    Plain,
    /// A per-agent mailbox byte.
    Mailbox,
    /// A storage-image byte.
    Storage,
    /// A frame-buffer byte.
    FrameBuffer,
    /// The console output port.
    Console,
    /// The random number port.
    Rng,
}

/// The region owning an address. Every address resolves to exactly one
/// kind; there is no overlap.
pub open spec fn spec_region_of(addr: u16) -> RegionKind {
    if addr == CONSOLE_PORT {
        RegionKind::Console
    } else if addr == RNG_PORT {
        RegionKind::Rng
    } else if MAILBOX_BASE <= addr < MAILBOX_BASE + AGENT_COUNT as u16 * MAILBOX_SIZE {
        RegionKind::Mailbox
    } else if STORAGE_BASE <= addr < STORAGE_BASE + STORAGE_SIZE {
        RegionKind::Storage
    } else if FRAME_BUFFER_BASE <= addr < FRAME_BUFFER_BASE + FRAME_BUFFER_SIZE {
        RegionKind::FrameBuffer
    } else {
        RegionKind::Plain
    }
}

/// Successor state of the 8-bit random number generator: a Galois linear
/// feedback shift register with polynomial `0x1D`. Every nonzero state
/// has a nonzero successor.
pub open spec fn spec_next_rand(x: u8) -> u8 {
    if x & 0x80 != 0 {
        (x << 1) ^ 0x1D
    } else {
        x << 1
    }
}

/// The abstract state of memory: the 64 Ki backing bytes and the console
/// output side channel.
#[verifier::ext_equal]
pub ghost struct MemView {
    pub bytes: Seq<u8>,
    pub console: Seq<u8>,
}

/// The byte address of offset `offset` inside agent `agent`'s mailbox.
pub open spec fn mailbox_byte_addr(agent: u8, offset: u8) -> int {
    MAILBOX_BASE + agent * MAILBOX_SIZE + offset
}

/// The 16-bit big-endian word stored at `addr`.
pub open spec fn word_at(bytes: Seq<u8>, addr: u16) -> u16 {
    ((bytes[addr as int] as u16) * 256 + bytes[addr as int + 1] as u16) as u16
}

/// Memory after a routed write of `value` to `addr`: the backing byte is
/// updated, and a write to the console port also appends to the console
/// side channel.
pub open spec fn mem_write(m: MemView, addr: u16, value: u8) -> MemView {
    MemView {
        bytes: m.bytes.update(addr as int, value),
        console: if addr == CONSOLE_PORT {
            m.console.push(value)
        } else {
            m.console
        },
    }
}

/// Memory after a routed read of `addr`: reading the random number port
/// steps the generator; every other read leaves memory unchanged.
pub open spec fn mem_read_step(m: MemView, addr: u16) -> MemView {
    if addr == RNG_PORT {
        MemView { bytes: m.bytes.update(addr as int, spec_next_rand(m.bytes[addr as int])), ..m }
    } else {
        m
    }
}

/// The 64 KiB address space with its region overlays and the console
/// output side channel.
#[derive(Debug)]
pub struct Memory {
    bytes: Vec<u8>,
    console: Vec<u8>,
}

impl View for Memory {
    type V = MemView;

    closed spec fn view(&self) -> MemView {
        MemView { bytes: self.bytes@, console: self.console@ }
    }
}

impl Memory {
    /// Well-formedness: the backing array spans the whole address space.
    pub open spec fn wf(self) -> bool {
        self@.bytes.len() == MEMORY_SIZE
    }

    /// Fresh memory: every byte zero, console empty.
    pub fn new() -> (r: Memory)
        ensures
            r.wf(),
            forall|a: int| 0 <= a < MEMORY_SIZE ==> r@.bytes[a] == 0,
            r@.console == Seq::<u8>::empty(),
    {
        let mut bytes: Vec<u8> = Vec::new();
        let mut i: usize = 0;
        while i < MEMORY_SIZE as usize
            invariant
                i <= MEMORY_SIZE,
                bytes@.len() == i,
                forall|a: int| 0 <= a < i ==> bytes@[a] == 0,
            decreases MEMORY_SIZE - i,
        {
            bytes.push(0);
            i = i + 1;
        }
        Memory { bytes, console: Vec::new() }
    }

    /// Step the random number generator state.
    fn next_rand(x: u8) -> (r: u8)
        ensures
            r == spec_next_rand(x),
    {
        if x & 0x80 != 0 {
            (x << 1) ^ 0x1D
        } else {
            x << 1
        }
    }

    /// The region kind owning `addr`.
    pub fn resolve_region(addr: u16) -> (r: RegionKind)
        ensures
            r == spec_region_of(addr),
    {
        if addr == CONSOLE_PORT {
            RegionKind::Console
        } else if MAILBOX_BASE <= addr && addr < MAILBOX_BASE + AGENT_COUNT as u16 * MAILBOX_SIZE {
            RegionKind::Mailbox
        } else if STORAGE_BASE <= addr && addr < STORAGE_BASE + STORAGE_SIZE {
            RegionKind::Storage
        } else if FRAME_BUFFER_BASE <= addr && addr < FRAME_BUFFER_BASE + FRAME_BUFFER_SIZE {
            RegionKind::FrameBuffer
        } else if addr == RNG_PORT {
            RegionKind::Rng
        } else {
            RegionKind::Plain
        }
    }

    /// Routed read of one byte. Reading the random number port returns
    /// the generator's current byte and steps it; every other region
    /// returns its backing byte with no further effect.
    pub fn read_u8(&mut self, addr: u16) -> (r: u8)
        requires
            old(self).wf(),
        ensures
            final(self).wf(),
            r == old(self)@.bytes[addr as int],
            final(self)@ == mem_read_step(old(self)@, addr),
    {
        let value = self.bytes[addr as usize];
        match Self::resolve_region(addr) {
            RegionKind::Rng => {
                self.bytes[addr as usize] = Self::next_rand(value);
            },
            _ => {},
        }
        proof {
            assert(self@ =~= mem_read_step(old(self)@, addr));
        }
        value
    }

    /// Routed write of one byte. Every region stores the byte in the
    /// backing array; a write to the console port also appends it to the
    /// console side channel.
    pub fn write_u8(&mut self, addr: u16, value: u8)
        requires
            old(self).wf(),
        ensures
            final(self).wf(),
            final(self)@ == mem_write(old(self)@, addr, value),
    {
        match Self::resolve_region(addr) {
            RegionKind::Console => {
                self.console.push(value);
            },
            _ => {},
        }
        self.bytes[addr as usize] = value;
        proof {
            assert(self@ =~= mem_write(old(self)@, addr, value));
        }
    }

    /// Routed read of a 16-bit big-endian word: high byte at `addr`, low
    /// byte at `addr + 1`.
    pub fn read_u16(&mut self, addr: u16) -> (r: u16)
        requires
            old(self).wf(),
            addr < 0xFFFF,
        ensures
            final(self).wf(),
            r == word_at(old(self)@.bytes, addr),
            final(self)@ == mem_read_step(mem_read_step(old(self)@, addr), (addr + 1) as u16),
    {
        let hi = self.read_u8(addr);
        let lo = self.read_u8(addr + 1);
        (hi as u16) * 256 + lo as u16
    }

    /// Routed write of a 16-bit big-endian word.
    pub fn write_u16(&mut self, addr: u16, value: u16)
        requires
            old(self).wf(),
            addr < 0xFFFF,
        ensures
            final(self).wf(),
            final(self)@ == mem_write(
                mem_write(old(self)@, addr, (value / 256) as u8),
                (addr + 1) as u16,
                (value % 256) as u8,
            ),
    {
        self.write_u8(addr, (value / 256) as u8);
        self.write_u8(addr + 1, (value % 256) as u8);
    }

    /// Raw read of one byte, bypassing region side effects; used for
    /// instruction fetch.
    pub fn byte_at(&self, addr: u16) -> (r: u8)
        requires
            self.wf(),
        ensures
            r == self@.bytes[addr as int],
    {
        self.bytes[addr as usize]
    }

    /// Fetch the 16-bit big-endian instruction word at `addr`, without
    /// region side effects.
    pub fn fetch_word(&self, addr: u16) -> (r: u16)
        requires
            self.wf(),
            addr < 0xFFFF,
        ensures
            r == word_at(self@.bytes, addr),
    {
        let hi = self.bytes[addr as usize];
        let lo = self.bytes[addr as usize + 1];
        (hi as u16) * 256 + lo as u16
    }

    /// Push one byte onto the stack, which grows downward from the top
    /// of the reserved region: the byte is stored at
    /// `STACK_SIZE - sp - 1` and the updated stack pointer is returned.
    /// The caller checks the stack discipline and stores the pointer back.
    pub fn push_u8(&mut self, sp: u16, value: u8) -> (r: u16)
        requires
            old(self).wf(),
            sp + 1 < STACK_SIZE,
        ensures
            final(self).wf(),
            final(self)@.bytes == old(self)@.bytes.update(STACK_SIZE - sp - 1, value),
            final(self)@.console == old(self)@.console,
            r == sp + 1,
    {
        self.bytes[(STACK_SIZE - sp - 1) as usize] = value;
        sp + 1
    }

    /// Pop one byte from the stack: returns the byte at
    /// `STACK_SIZE - sp` and the decremented stack pointer.
    pub fn pop_u8(&self, sp: u16) -> (r: (u8, u16))
        requires
            self.wf(),
            1 <= sp <= STACK_SIZE,
        ensures
            r.0 == self@.bytes[STACK_SIZE - sp],
            r.1 == sp - 1,
    {
        (self.bytes[(STACK_SIZE - sp) as usize], sp - 1)
    }

    /// Push a 16-bit word onto the stack, big-endian, and return the
    /// updated stack pointer.
    pub fn push_u16(&mut self, sp: u16, value: u16) -> (r: u16)
        requires
            old(self).wf(),
            sp + 2 < STACK_SIZE,
        ensures
            final(self).wf(),
            final(self)@.bytes == old(self)@.bytes.update(STACK_SIZE - sp - 2, (value / 256) as u8)
                .update(STACK_SIZE - sp - 1, (value % 256) as u8),
            final(self)@.console == old(self)@.console,
            r == sp + 2,
    {
        self.bytes[(STACK_SIZE - sp - 2) as usize] = (value / 256) as u8;
        self.bytes[(STACK_SIZE - sp - 1) as usize] = (value % 256) as u8;
        sp + 2
    }

    /// Pop a 16-bit big-endian word from the stack: returns the word at
    /// `STACK_SIZE - sp` and the stack pointer decremented by 2.
    pub fn pop_u16(&self, sp: u16) -> (r: (u16, u16))
        requires
            self.wf(),
            2 <= sp <= STACK_SIZE,
        ensures
            r.0 == word_at(self@.bytes, (STACK_SIZE - sp) as u16),
            r.1 == sp - 2,
    {
        let hi = self.bytes[(STACK_SIZE - sp) as usize];
        let lo = self.bytes[(STACK_SIZE - sp + 1) as usize];
        ((hi as u16) * 256 + lo as u16, sp - 2)
    }

    /// Read one byte of agent `agent`'s mailbox.
    pub fn mailbox_read(&self, agent: u8, offset: u8) -> (r: u8)
        requires
            self.wf(),
            agent < AGENT_COUNT,
        ensures
            r == self@.bytes[mailbox_byte_addr(agent, offset)],
    {
        let addr = MAILBOX_BASE + agent as u16 * MAILBOX_SIZE + offset as u16;
        self.bytes[addr as usize]
    }

    /// Write one byte of agent `agent`'s mailbox.
    pub fn mailbox_write(&mut self, agent: u8, offset: u8, value: u8)
        requires
            old(self).wf(),
            agent < AGENT_COUNT,
        ensures
            final(self).wf(),
            final(self)@.bytes == old(self)@.bytes.update(mailbox_byte_addr(agent, offset), value),
            final(self)@.console == old(self)@.console,
    {
        let addr = MAILBOX_BASE + agent as u16 * MAILBOX_SIZE + offset as u16;
        self.bytes[addr as usize] = value;
    }

    /// Write `data` wholesale into memory starting at `base`, bypassing
    /// region side effects; used to load programs and storage images.
    pub fn load_image(&mut self, base: u16, data: &[u8])
        requires
            old(self).wf(),
            base + data@.len() <= MEMORY_SIZE,
        ensures
            final(self).wf(),
            forall|i: int|
                0 <= i < data@.len() ==> final(self)@.bytes[base + i] == data@[i],
            forall|a: int|
                0 <= a < MEMORY_SIZE && !(base <= a < base + data@.len()) ==> final(self)@.bytes[a]
                    == old(self)@.bytes[a],
            final(self)@.console == old(self)@.console,
    {
        let mut i: usize = 0;
        while i < data.len()
            invariant
                self.wf(),
                i <= data@.len(),
                base + data@.len() <= MEMORY_SIZE,
                forall|j: int| 0 <= j < i ==> self@.bytes[base + j] == data@[j],
                forall|a: int|
                    0 <= a < MEMORY_SIZE && !(base <= a < base + i) ==> self@.bytes[a] == old(
                        self,
                    )@.bytes[a],
                self@.console == old(self)@.console,
            decreases data@.len() - i,
        {
            self.bytes[base as usize + i] = data[i];
            i = i + 1;
        }
    }

    /// The console output side channel, in write order.
    pub fn console_bytes(&self) -> (r: &Vec<u8>)
        ensures
            r@ == self@.console,
    {
        &self.console
    }

    /// A copy of the frame-buffer region as a region value.
    pub fn graphic_buffer(&self) -> (r: GraphicBufferRegion)
        requires
            self.wf(),
        ensures
            r.start == FRAME_BUFFER_BASE,
            r.end == FRAME_BUFFER_BASE + FRAME_BUFFER_SIZE,
            r.data@ == self@.bytes.subrange(
                FRAME_BUFFER_BASE as int,
                FRAME_BUFFER_BASE + FRAME_BUFFER_SIZE,
            ),
    {
        let data = self.copy_range(FRAME_BUFFER_BASE, FRAME_BUFFER_SIZE);
        GraphicBufferRegion::new(FRAME_BUFFER_BASE, FRAME_BUFFER_BASE + FRAME_BUFFER_SIZE, data)
    }

    /// A copy of agent `agent`'s mailbox as a region value.
    pub fn bot_mailbox(&self, agent: u8) -> (r: MailboxRegion)
        requires
            self.wf(),
            agent < AGENT_COUNT,
        ensures
            r.start == MAILBOX_BASE + agent as u16 * MAILBOX_SIZE,
            r.end == MAILBOX_BASE + agent as u16 * MAILBOX_SIZE + MAILBOX_SIZE,
            r.data@ == self@.bytes.subrange(
                mailbox_byte_addr(agent, 0),
                mailbox_byte_addr(agent, 0) + MAILBOX_SIZE,
            ),
    {
        let start = MAILBOX_BASE + agent as u16 * MAILBOX_SIZE;
        let data = self.copy_range(start, MAILBOX_SIZE);
        MailboxRegion::new(start, start + MAILBOX_SIZE, data)
    }

    /// Copy `len` backing bytes starting at `base`.
    fn copy_range(&self, base: u16, len: u16) -> (r: Vec<u8>)
        requires
            self.wf(),
            base + len <= MEMORY_SIZE,
        ensures
            r@ == self@.bytes.subrange(base as int, base + len),
    {
        let mut out: Vec<u8> = Vec::new();
        let mut i: u16 = 0;
        while i < len
            invariant
                self.wf(),
                i <= len,
                base + len <= MEMORY_SIZE,
                out@ == self@.bytes.subrange(base as int, base + i),
            decreases len - i,
        {
            out.push(self.bytes[(base + i) as usize]);
            proof {
                assert(out@ =~= self@.bytes.subrange(base as int, base + i + 1));
            }
            i = i + 1;
        }
        out
    }
}

} // verus!
