//! Reason codes and action flags of the Itanium unwinding ABI.

use vstd::prelude::*;

verus! {

/// Integer value of `_URC_NO_REASON`.
pub const NO_REASON: i32 = 0;
/// Integer value of `_URC_FOREIGN_EXCEPTION_CAUGHT`.
pub const FOREIGN_EXCEPTION_CAUGHT: i32 = 1;
/// Integer value of `_URC_FATAL_PHASE2_ERROR`.
pub const FATAL_PHASE2_ERROR: i32 = 2;
/// Integer value of `_URC_FATAL_PHASE1_ERROR`.
pub const FATAL_PHASE1_ERROR: i32 = 3;
/// Integer value of `_URC_NORMAL_STOP`.
pub const NORMAL_STOP: i32 = 4;
/// Integer value of `_URC_END_OF_STACK`.
pub const END_OF_STACK: i32 = 5;
/// Integer value of `_URC_HANDLER_FOUND`.
pub const HANDLER_FOUND: i32 = 6;
/// Integer value of `_URC_INSTALL_CONTEXT`.
pub const INSTALL_CONTEXT: i32 = 7;
/// Integer value of `_URC_CONTINUE_UNWIND`.
pub const CONTINUE_UNWIND: i32 = 8;

/// A reason code returned by the unwinding entry points and by
/// personality routines.  The wrapped integer carries the fixed values
/// the Itanium ABI assigns (`NO_REASON` through `CONTINUE_UNWIND`).
#[derive(Clone, Copy, PartialEq, Eq, Structural, Debug)]
pub struct UnwindReasonCode(pub i32);

/// Integer value of the `_UA_SEARCH_PHASE` action flag.
pub const SEARCH_PHASE: i32 = 1;
/// Integer value of the `_UA_CLEANUP_PHASE` action flag.
pub const CLEANUP_PHASE: i32 = 2;
/// Integer value of the `_UA_HANDLER_FRAME` action flag.
pub const HANDLER_FRAME: i32 = 4;
/// Integer value of the `_UA_FORCE_UNWIND` action flag.
pub const FORCE_UNWIND: i32 = 8;
/// Integer value of the `_UA_END_OF_STACK` action flag.
pub const END_OF_STACK_ACTION: i32 = 16;

/// A set of action flags handed to a personality routine or a stop
/// function, combinable by bitwise or.
#[derive(Clone, Copy, PartialEq, Eq, Structural, Debug)]
pub struct UnwindAction(pub i32);

impl UnwindAction {
    /// The empty set of action flags.
    pub fn empty() -> (r: UnwindAction)
        ensures
            r.0 == 0,
    {
        UnwindAction(0)
    }

    /// Whether any flag of `other` is set in `self`.
    pub fn contains(&self, other: UnwindAction) -> (r: bool)
        ensures
            r == ((self.0 & other.0) != 0),
    {
        self.0 & other.0 != 0
    }

    /// The union of two sets of action flags.
    pub fn bitor(self, rhs: UnwindAction) -> (r: UnwindAction)
        ensures
            r.0 == (self.0 | rhs.0),
    {
        UnwindAction(self.0 | rhs.0)
    }
}

} // verus!
