//! Region values: owned snapshots of a memory region's byte range, with
//! the region's half-open `[begin, end)` address bounds and its
//! region-relative read/write behaviour.

use vstd::prelude::*;

verus! {

/// Whether pixel `(x, y)` is set in a bit-packed frame buffer: 1 bit per
/// pixel, most-significant bit first, 8 bytes per row.
pub open spec fn spec_pixel(data: Seq<u8>, x: u8, y: u8) -> bool {
    data[(y as int) * 8 + (x as int) / 8] & (0x80u8 >> (x % 8) as u8) != 0
}

/// The frame-buffer region: bit-packed pixels, most-significant bit
/// first, 8 bytes per row.
#[derive(Debug)]
pub struct GraphicBufferRegion {
    /// First address of the region.
    pub start: u16,
    /// One past the last address of the region.
    pub end: u16,
    /// The region's bytes, region-relative.
    pub data: Vec<u8>,
}

impl GraphicBufferRegion {
    /// A frame-buffer region over the given bytes.
    pub fn new(start: u16, end: u16, data: Vec<u8>) -> (r: GraphicBufferRegion)
        ensures
            r.start == start,
            r.end == end,
            r.data == data,
    {
        GraphicBufferRegion { start, end, data }
    }

    /// Whether pixel `(x, y)` is set: bit `7 - x % 8` of the byte at
    /// region-relative index `y * 8 + x / 8`.
    pub fn get_pixel(&self, x: u8, y: u8) -> (r: bool)
        requires
            (y as int) * 8 + (x as int) / 8 < self.data@.len(),
        ensures
            r == spec_pixel(self.data@, x, y),
    {
        let byte_index: u16 = (y as u16) * 8 + (x as u16) / 8;
        let bit_pos: u8 = x % 8;
        let byte = self.data[byte_index as usize];
        let mask: u8 = 0x80u8 >> bit_pos;
        byte & mask != 0
    }

    /// First address of the region.
    pub fn begin(&self) -> (r: u16)
        ensures
            r == self.start,
    {
        self.start
    }

    /// One past the last address of the region.
    pub fn end(&self) -> (r: u16)
        ensures
            r == self.end,
    {
        self.end
    }

    /// Read the byte at region-relative address `addr`.
    pub fn read(&self, addr: u16) -> (r: u8)
        requires
            addr < self.data@.len(),
        ensures
            r == self.data@[addr as int],
    {
        self.data[addr as usize]
    }

    /// Write the byte at region-relative address `addr`.
    pub fn write(&mut self, addr: u16, value: u8)
        requires
            addr < old(self).data@.len(),
        ensures
            final(self).data@ == old(self).data@.update(addr as int, value),
            final(self).start == old(self).start,
            final(self).end == old(self).end,
    {
        self.data[addr as usize] = value;
    }
}

/// A per-agent mailbox region: plain byte storage used by the global
/// load/store instructions.
#[derive(Debug)]
pub struct MailboxRegion {
    /// First address of the region.
    pub start: u16,
    /// One past the last address of the region.
    pub end: u16,
    /// The region's bytes, region-relative.
    pub data: Vec<u8>,
}

impl MailboxRegion {
    /// A mailbox region over the given bytes.
    pub fn new(start: u16, end: u16, data: Vec<u8>) -> (r: MailboxRegion)
        ensures
            r.start == start,
            r.end == end,
            r.data == data,
    {
        MailboxRegion { start, end, data }
    }

    /// First address of the region.
    pub fn begin(&self) -> (r: u16)
        ensures
            r == self.start,
    {
        self.start
    }

    /// One past the last address of the region.
    pub fn end(&self) -> (r: u16)
        ensures
            r == self.end,
    {
        self.end
    }

    /// Read the byte at region-relative address `addr`.
    pub fn read(&self, addr: u16) -> (r: u8)
        requires
            addr < self.data@.len(),
        ensures
            r == self.data@[addr as int],
    {
        self.data[addr as usize]
    }

    /// Write the byte at region-relative address `addr`.
    pub fn write(&mut self, addr: u16, value: u8)
        requires
            addr < old(self).data@.len(),
        ensures
            final(self).data@ == old(self).data@.update(addr as int, value),
            final(self).start == old(self).start,
            final(self).end == old(self).end,
    {
        self.data[addr as usize] = value;
    }
}

} // verus!
