//! A bounded model of the address space the unwinder reads.
//!
//! Register rules such as `Offset(o)` make the unwinder load words from
//! the stack, and indirect pointer encodings make it dereference
//! addresses.  A production unwinder performs these loads through raw
//! unaligned reads and trusts the unwind tables; here the readable
//! memory is a byte vector placed at a base address, and a read outside
//! it is reported instead of being undefined behaviour.

use vstd::prelude::*;

verus! {

/// A contiguous span of readable memory: `bytes[i]` is the byte at
/// address `base + i`.  Words are read little-endian and may be
/// unaligned.
#[derive(PartialEq, Eq, Debug)]
pub struct Memory {
    /// The address of the first byte.
    pub base: u64,
    /// The bytes, in address order.
    pub bytes: Vec<u8>,
}

impl Memory {
    /// The span does not wrap around the end of the address space.
    pub open spec fn wf(&self) -> bool {
        self.base + self.bytes@.len() <= u64::MAX + 1
    }

    /// Whether address `addr` is readable.
    pub open spec fn spec_in_range(&self, addr: int) -> bool {
        self.base <= addr < self.base + self.bytes@.len()
    }

    /// The byte at address `addr`.
    pub open spec fn spec_byte_at(&self, addr: int) -> u8 {
        self.bytes@[addr - self.base]
    }

    /// The little-endian word formed by the eight bytes at `addr`.
    pub open spec fn spec_word_at(&self, addr: int) -> int {
        self.spec_byte_at(addr) + 0x100 * self.spec_byte_at(addr + 1)
            + 0x1_0000 * self.spec_byte_at(addr + 2) + 0x100_0000 * self.spec_byte_at(addr + 3)
            + 0x1_0000_0000 * self.spec_byte_at(addr + 4) + 0x100_0000_0000 * self.spec_byte_at(
            addr + 5,
        ) + 0x1_0000_0000_0000 * self.spec_byte_at(addr + 6) + 0x100_0000_0000_0000
            * self.spec_byte_at(addr + 7)
    }

    /// Whether all `len` bytes starting at `addr` are readable.
    pub open spec fn spec_range_in(&self, addr: int, len: int) -> bool {
        &&& self.base <= addr
        &&& addr + len <= self.base + self.bytes@.len()
    }

    /// An empty memory at address zero: every read fails.
    pub fn empty() -> (r: Memory)
        ensures
            r.wf(),
            r.bytes@.len() == 0,
    {
        Memory { base: 0, bytes: Vec::new() }
    }

    /// A memory of `bytes` placed at `base`.  Fails if the span would
    /// wrap around the end of the address space.
    pub fn new(base: u64, bytes: Vec<u8>) -> (r: Option<Memory>)
        ensures
            match r {
                Some(m) => m.wf() && m.base == base && m.bytes@ == bytes@,
                None => base + bytes@.len() > u64::MAX + 1,
            },
    {
        let len = bytes.len() as u64;
        if base == 0 || len <= u64::MAX - base + 1 {
            Some(Memory { base, bytes })
        } else {
            None
        }
    }

    /// Reads the byte at `addr`; `None` outside the span.
    pub fn read_u8(&self, addr: u64) -> (r: Option<u8>)
        ensures
            match r {
                Some(b) => self.spec_in_range(addr as int) && b == self.spec_byte_at(addr as int),
                None => !self.spec_in_range(addr as int),
            },
    {
        if addr >= self.base && addr - self.base < self.bytes.len() as u64 {
            Some(self.bytes[(addr - self.base) as usize])
        } else {
            None
        }
    }

    /// The little-endian 32-bit word formed by the four bytes at
    /// `addr`.
    pub open spec fn spec_word32_at(&self, addr: int) -> int {
        self.spec_byte_at(addr) + 0x100 * self.spec_byte_at(addr + 1) + 0x1_0000
            * self.spec_byte_at(addr + 2) + 0x100_0000 * self.spec_byte_at(addr + 3)
    }

    /// Reads the little-endian 32-bit word at `addr`; `None` if any of
    /// its four bytes is outside the span.
    pub fn read_word32(&self, addr: u64) -> (r: Option<u32>)
        requires
            self.wf(),
        ensures
            match r {
                Some(w) => self.spec_range_in(addr as int, 4) && w == self.spec_word32_at(
                    addr as int,
                ),
                None => !self.spec_range_in(addr as int, 4),
            },
    {
        if addr >= self.base && self.bytes.len() as u64 >= 4 && addr - self.base <= self.bytes.len()
            as u64 - 4 {
            let off = (addr - self.base) as usize;
            let b0 = self.bytes[off] as u32;
            let b1 = self.bytes[off + 1] as u32;
            let b2 = self.bytes[off + 2] as u32;
            let b3 = self.bytes[off + 3] as u32;
            Some(b0 + 0x100 * b1 + 0x1_0000 * b2 + 0x100_0000 * b3)
        } else {
            None
        }
    }

    /// Reads the little-endian word at `addr`; `None` if any of its
    /// eight bytes is outside the span.
    pub fn read_word(&self, addr: u64) -> (r: Option<u64>)
        requires
            self.wf(),
        ensures
            match r {
                Some(w) => self.spec_range_in(addr as int, 8) && w == self.spec_word_at(addr as int),
                None => !self.spec_range_in(addr as int, 8),
            },
    {
        if addr >= self.base && self.bytes.len() as u64 >= 8 && addr - self.base <= self.bytes.len()
            as u64 - 8 {
            let off = (addr - self.base) as usize;
            let b0 = self.bytes[off] as u64;
            let b1 = self.bytes[off + 1] as u64;
            let b2 = self.bytes[off + 2] as u64;
            let b3 = self.bytes[off + 3] as u64;
            let b4 = self.bytes[off + 4] as u64;
            let b5 = self.bytes[off + 5] as u64;
            let b6 = self.bytes[off + 6] as u64;
            let b7 = self.bytes[off + 7] as u64;
            Some(
                b0 + 0x100 * b1 + 0x1_0000 * b2 + 0x100_0000 * b3 + 0x1_0000_0000 * b4
                    + 0x100_0000_0000 * b5 + 0x1_0000_0000_0000 * b6 + 0x100_0000_0000_0000 * b7,
            )
        } else {
            None
        }
    }
}

} // verus!
