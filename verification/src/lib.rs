//! A small register-based virtual machine with a fixed-width 16-bit
//! instruction set over a 64 KiB memory-mapped address space.
//!
//! The crate provides the instruction codec, the register file, the
//! memory/region router, the fetch-decode-execute engine, the
//! agent/arbiter mailbox addressing model, and a two-pass assembler.

use vstd::prelude::*;

pub mod opcodes;
pub mod registers;
pub mod encode;
pub mod decode;
pub mod mem;
pub mod regions;
pub mod vm;
pub mod ops;
pub mod laws;
pub mod assembler;
pub mod storage;

verus! {

/// Size of the whole address space in bytes.
pub const MEMORY_SIZE: u32 = 65536;

/// Size of the reserved stack region at the bottom of the address space.
/// User code is loaded just above it, so call targets are offset by this
/// amount.
pub const STACK_SIZE: u16 = 256;

} // verus!
