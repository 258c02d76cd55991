//! The architecture layer: the register file and the DWARF register
//! numbers the state machine needs.
//!
//! The model fixes one 64-bit architecture.  Registers are numbered as
//! DWARF numbers them on x86-64: sixteen general-purpose registers and
//! the return address, `0` through `16`, with the stack pointer at `7`
//! and the return address at `16`.  A machine word is a `u64`.

use vstd::prelude::*;

verus! {

/// How many DWARF-numbered registers the register file holds.
pub const NUM_REGS: usize = 17;

/// The DWARF register number of the stack pointer.
pub const SP: u16 = 7;

/// The DWARF register number of the return address.
pub const RA: u16 = 16;

/// How many words of private data the exception header reserves.
pub const UNWIND_PRIVATE_DATA_SIZE: usize = 6;

/// Marker for the selected architecture; carries the register numbers
/// above as its description.
pub struct Arch;

/// The register file: one word per DWARF-numbered register.
///
/// A `Context` snapshots every register the unwinder may need to
/// reconstruct a caller's state.  Out-of-range register numbers are
/// ruled out by precondition; the production ABI treats them as a fatal
/// programming error.
#[derive(Clone, Copy, PartialEq, Eq, Debug)]
pub struct Context {
    /// The register values, indexed by DWARF register number.
    pub regs: [u64; 17],
}

impl Context {
    /// A register file with every register zero.
    pub fn zeroed() -> (r: Context)
        ensures
            r@ =~= Seq::new(NUM_REGS as nat, |i: int| 0u64),
    {
        Context { regs: [0; 17] }
    }

    /// The value of register `reg`.
    pub fn get(&self, reg: u16) -> (r: u64)
        requires
            reg < NUM_REGS,
        ensures
            r == self@[reg as int],
    {
        self.regs[reg as usize]
    }

    /// Sets register `reg` to `value`.
    pub fn set(&mut self, reg: u16, value: u64)
        requires
            reg < NUM_REGS,
        ensures
            final(self)@ =~= old(self)@.update(reg as int, value),
    {
        self.regs[reg as usize] = value;
    }

    /// The stack pointer.
    pub fn sp(&self) -> (r: u64)
        ensures
            r == self@[SP as int],
    {
        self.regs[SP as usize]
    }

    /// The return address.
    pub fn ra(&self) -> (r: u64)
        ensures
            r == self@[RA as int],
    {
        self.regs[RA as usize]
    }
}

impl View for Context {
    type V = Seq<u64>;

    open spec fn view(&self) -> Seq<u64> {
        self.regs@
    }
}

} // verus!
