//! A verified model of the Itanium ABI level-1 stack unwinder.
//!
//! The library walks a modelled call stack: it locates the frame
//! description entry (FDE) covering a program counter, decodes the DWARF
//! call-frame-information row for that counter, reconstructs the caller's
//! register file, and drives the two-phase personality protocol
//! (`_Unwind_RaiseException`, `_Unwind_ForceUnwind`, `_Unwind_Resume`).
//!
//! Machine state that a production unwinder reads through raw pointers is
//! held here as plain data: a register file indexed by DWARF register
//! number, a bounded byte memory, and `.eh_frame` sections as byte
//! vectors.  Personality routines and stop functions, which the ABI takes
//! as function pointers, are modelled as data that says what they return
//! on each kind of invocation, so that every decision the state machine
//! takes is verified.

pub mod abi;
pub mod arch;
pub mod cfi;
pub mod eh_frame;
pub mod ehabi;
pub mod encoding;
pub mod expr;
pub mod find_fde;
pub mod frame;
pub mod mem;
pub mod phdr;
pub mod unwinder;
pub mod util;
