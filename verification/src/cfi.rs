//! The DWARF call-frame-instruction interpreter.
//!
//! A CIE and an FDE each carry a program of call-frame instructions.
//! Running the CIE's program and then the FDE's program up to a given
//! program counter produces the unwind-table row for that counter: the
//! CFA rule and one recovery rule per mentioned register.  The
//! instructions here are the ones compilers emit into `.eh_frame`; an
//! unknown opcode is an error, never undefined behaviour.

use crate::arch::NUM_REGS;
use crate::encoding::{
    spec_parse_pointer,
    parse_pointer,
    spec_le_value,
    read_le_value,
    PointerBases,
};
use crate::util::{
    spec_sleb128,
    spec_uleb128,
    read_sleb128,
    read_uleb128,
    Pointer,
};
use vstd::prelude::*;

verus! {

/// How the caller's value of one register is recovered.
#[derive(Clone, Copy, PartialEq, Eq, Debug)]
pub enum RegisterRule {
    /// No recovery is possible; the old value is carried over.
    Undefined,
    /// The register keeps its value across the call.
    SameValue,
    /// The value is stored at CFA plus this offset.
    Offset(i64),
    /// The value is CFA plus this offset.
    ValOffset(i64),
    /// The value lives in another register.
    Register(u16),
    /// The value is stored at the address an expression computes; the
    /// fields delimit the expression bytes in the section.
    Expression(usize, usize),
    /// The value is what an expression computes.
    ValExpression(usize, usize),
}

/// How the canonical frame address is computed.
#[derive(Clone, Copy, PartialEq, Eq, Debug)]
pub enum CfaRule {
    /// A register's value plus an offset.
    RegisterAndOffset {
        /// The base register.
        register: u16,
        /// The offset added to it.
        offset: i64,
    },
    /// An expression computes the CFA; the fields delimit the
    /// expression bytes in the section.
    Expression(usize, usize),
}

/// The unwind-table row for one program counter.
#[derive(Clone, Copy, PartialEq, Eq, Debug)]
pub struct Row {
    /// The CFA rule in force.
    pub cfa: CfaRule,
    /// The rule for each modelled register; `None` where the row sets
    /// no rule.
    pub regs: [Option<RegisterRule>; 17],
}

/// One decoded call-frame instruction.
#[derive(Clone, Copy, PartialEq, Eq, Debug)]
pub enum CfiInstr {
    /// Advance the current location by this many code-alignment units.
    Advance(u64),
    /// Set the location to this address.
    SetLoc(u64),
    /// Set a register's rule to `Offset`.
    Offset(u16, i64),
    /// Set a register's rule to `ValOffset`.
    ValOffset(u16, i64),
    /// Restore a register's rule from the CIE's initial rules.
    Restore(u16),
    /// Set a register's rule to `Undefined`.
    Undefined(u16),
    /// Set a register's rule to `SameValue`.
    SameValue(u16),
    /// Set a register's rule to `Register`.
    Register(u16, u16),
    /// Push the current row on the implicit stack.
    RememberState,
    /// Pop the implicit stack into the current row.
    RestoreState,
    /// Set the CFA rule to register plus offset.
    DefCfa(u16, i64),
    /// Replace the register of the CFA rule.
    DefCfaRegister(u16),
    /// Replace the offset of the CFA rule.
    DefCfaOffset(i64),
    /// Set the CFA rule to an expression.
    DefCfaExpression(usize, usize),
    /// Set a register's rule to `Expression`.
    Expression(u16, usize, usize),
    /// Set a register's rule to `ValExpression`.
    ValExpression(u16, usize, usize),
    /// An argument-size note; it does not change the row.
    ArgsSize,
    /// No operation.
    Nop,
}

/// A factored offset times the data alignment factor, if it fits a
/// signed word.
pub open spec fn spec_factored(f: int, da: int) -> Option<int> {
    if f > i64::MAX {
        None
    } else if i64::MIN <= f * da <= i64::MAX {
        Some(f * da)
    } else {
        None
    }
}

/// An unsigned LEB128 register number, bounded to a `u16`.
pub open spec fn spec_reg_at(s: Seq<u8>, pos: int) -> Option<(u16, int)> {
    match spec_uleb128(s, pos) {
        Some((v, n)) => if v <= u16::MAX {
            Some((v as u16, n))
        } else {
            None
        },
        None => None,
    }
}

/// An expression block at `pos`: its LEB128 length, then that many
/// bytes, all within `end`.
pub open spec fn spec_block_at(s: Seq<u8>, pos: int, end: int) -> Option<(int, int)> {
    match spec_uleb128(s, pos) {
        Some((l, n)) => if n + l <= end {
            Some((n, n + l))
        } else {
            None
        },
        None => None,
    }
}

/// The call-frame instruction at `pos` and the position just past it.
#[verifier::opaque]
pub open spec fn spec_parse_instr(
    s: Seq<u8>,
    pos: int,
    end: int,
    da: int,
    fde_encoding: u8,
    bases: PointerBases,
) -> Option<(CfiInstr, int)> {
    if pos < 0 || pos >= s.len() || pos >= end {
        None
    } else {
        let b = s[pos];
        let hi = b & 0xc0;
        if hi == 0x40 {
            Some((CfiInstr::Advance((b & 0x3f) as u64), pos + 1))
        } else if hi == 0x80 {
            match spec_uleb128(s, pos + 1) {
                Some((f, n)) => match spec_factored(f as int, da) {
                    Some(o) => Some((CfiInstr::Offset((b & 0x3f) as u16, o as i64), n)),
                    None => None,
                },
                None => None,
            }
        } else if hi == 0xc0 {
            Some((CfiInstr::Restore((b & 0x3f) as u16), pos + 1))
        } else if b == 0x00 {
            Some((CfiInstr::Nop, pos + 1))
        } else if b == 0x01 {
            match spec_parse_pointer(s, pos + 1, fde_encoding, bases) {
                Some((Pointer::Direct(a), n)) => Some((CfiInstr::SetLoc(a), n)),
                _ => None,
            }
        } else if b == 0x02 {
            if pos + 2 <= s.len() {
                Some((CfiInstr::Advance(spec_le_value(s, pos + 1, 1) as u64), pos + 2))
            } else {
                None
            }
        } else if b == 0x03 {
            if pos + 3 <= s.len() {
                Some((CfiInstr::Advance(spec_le_value(s, pos + 1, 2) as u64), pos + 3))
            } else {
                None
            }
        } else if b == 0x04 {
            if pos + 5 <= s.len() {
                Some((CfiInstr::Advance(spec_le_value(s, pos + 1, 4) as u64), pos + 5))
            } else {
                None
            }
        } else if b == 0x05 {
            match spec_reg_at(s, pos + 1) {
                Some((r, n)) => match spec_uleb128(s, n) {
                    Some((f, n2)) => match spec_factored(f as int, da) {
                        Some(o) => Some((CfiInstr::Offset(r, o as i64), n2)),
                        None => None,
                    },
                    None => None,
                },
                None => None,
            }
        } else if b == 0x06 {
            match spec_reg_at(s, pos + 1) {
                Some((r, n)) => Some((CfiInstr::Restore(r), n)),
                None => None,
            }
        } else if b == 0x07 {
            match spec_reg_at(s, pos + 1) {
                Some((r, n)) => Some((CfiInstr::Undefined(r), n)),
                None => None,
            }
        } else if b == 0x08 {
            match spec_reg_at(s, pos + 1) {
                Some((r, n)) => Some((CfiInstr::SameValue(r), n)),
                None => None,
            }
        } else if b == 0x09 {
            match spec_reg_at(s, pos + 1) {
                Some((r, n)) => match spec_reg_at(s, n) {
                    Some((r2, n2)) => Some((CfiInstr::Register(r, r2), n2)),
                    None => None,
                },
                None => None,
            }
        } else if b == 0x0a {
            Some((CfiInstr::RememberState, pos + 1))
        } else if b == 0x0b {
            Some((CfiInstr::RestoreState, pos + 1))
        } else if b == 0x0c {
            match spec_reg_at(s, pos + 1) {
                Some((r, n)) => match spec_uleb128(s, n) {
                    Some((o, n2)) => if o <= i64::MAX {
                        Some((CfiInstr::DefCfa(r, o as i64), n2))
                    } else {
                        None
                    },
                    None => None,
                },
                None => None,
            }
        } else if b == 0x0d {
            match spec_reg_at(s, pos + 1) {
                Some((r, n)) => Some((CfiInstr::DefCfaRegister(r), n)),
                None => None,
            }
        } else if b == 0x0e {
            match spec_uleb128(s, pos + 1) {
                Some((o, n)) => if o <= i64::MAX {
                    Some((CfiInstr::DefCfaOffset(o as i64), n))
                } else {
                    None
                },
                None => None,
            }
        } else if b == 0x0f {
            match spec_block_at(s, pos + 1, end) {
                Some((bs, be)) => Some((CfiInstr::DefCfaExpression(bs as usize, be as usize), be)),
                None => None,
            }
        } else if b == 0x10 {
            match spec_reg_at(s, pos + 1) {
                Some((r, n)) => match spec_block_at(s, n, end) {
                    Some((bs, be)) => Some(
                        (CfiInstr::Expression(r, bs as usize, be as usize), be),
                    ),
                    None => None,
                },
                None => None,
            }
        } else if b == 0x11 {
            match spec_reg_at(s, pos + 1) {
                Some((r, n)) => match spec_sleb128(s, n) {
                    Some((f, n2)) => if i64::MIN <= f <= i64::MAX {
                        match spec_factored(f, da) {
                            Some(o) => Some((CfiInstr::Offset(r, o as i64), n2)),
                            None => None,
                        }
                    } else {
                        None
                    },
                    None => None,
                },
                None => None,
            }
        } else if b == 0x12 {
            match spec_reg_at(s, pos + 1) {
                Some((r, n)) => match spec_sleb128(s, n) {
                    Some((f, n2)) => if i64::MIN <= f <= i64::MAX {
                        match spec_factored(f, da) {
                            Some(o) => Some((CfiInstr::DefCfa(r, o as i64), n2)),
                            None => None,
                        }
                    } else {
                        None
                    },
                    None => None,
                },
                None => None,
            }
        } else if b == 0x13 {
            match spec_sleb128(s, pos + 1) {
                Some((f, n)) => if i64::MIN <= f <= i64::MAX {
                    match spec_factored(f, da) {
                        Some(o) => Some((CfiInstr::DefCfaOffset(o as i64), n)),
                        None => None,
                    }
                } else {
                    None
                },
                None => None,
            }
        } else if b == 0x14 {
            match spec_reg_at(s, pos + 1) {
                Some((r, n)) => match spec_uleb128(s, n) {
                    Some((f, n2)) => match spec_factored(f as int, da) {
                        Some(o) => Some((CfiInstr::ValOffset(r, o as i64), n2)),
                        None => None,
                    },
                    None => None,
                },
                None => None,
            }
        } else if b == 0x15 {
            match spec_reg_at(s, pos + 1) {
                Some((r, n)) => match spec_sleb128(s, n) {
                    Some((f, n2)) => if i64::MIN <= f <= i64::MAX {
                        match spec_factored(f, da) {
                            Some(o) => Some((CfiInstr::ValOffset(r, o as i64), n2)),
                            None => None,
                        }
                    } else {
                        None
                    },
                    None => None,
                },
                None => None,
            }
        } else if b == 0x16 {
            match spec_reg_at(s, pos + 1) {
                Some((r, n)) => match spec_block_at(s, n, end) {
                    Some((bs, be)) => Some(
                        (CfiInstr::ValExpression(r, bs as usize, be as usize), be),
                    ),
                    None => None,
                },
                None => None,
            }
        } else if b == 0x2e {
            match spec_uleb128(s, pos + 1) {
                Some((sz, n)) => if sz <= u64::MAX {
                    Some((CfiInstr::ArgsSize, n))
                } else {
                    None
                },
                None => None,
            }
        } else {
            None
        }
    }
}

/// Reads a register number, bounded to a `u16`.
fn reg_at(s: &Vec<u8>, pos: usize) -> (r: Option<(u16, usize)>)
    ensures
        match r {
            Some(p) => spec_reg_at(s@, pos as int) matches Some(q) && q.0 == p.0 && q.1 == p.1,
            None => spec_reg_at(s@, pos as int) is None,
        },
{
    match read_uleb128(s, pos) {
        Some((v, n)) => if v <= u16::MAX as u64 {
            Some((v as u16, n))
        } else {
            None
        },
        None => None,
    }
}

/// Reads an expression block bounded by `end`.
fn block_at(s: &Vec<u8>, pos: usize, end: usize) -> (r: Option<(usize, usize)>)
    requires
        end <= s@.len(),
    ensures
        match r {
            Some(p) => spec_block_at(s@, pos as int, end as int) matches Some(q) && q.0 == p.0
                && q.1 == p.1,
            None => spec_block_at(s@, pos as int, end as int) is None,
        },
{
    proof {
        crate::util::lemma_uleb128_bounds(s@, pos as int);
    }
    match read_uleb128(s, pos) {
        Some((l, n)) => if n <= end && l <= (end - n) as u64 {
            Some((n, n + l as usize))
        } else {
            None
        },
        None => None,
    }
}

/// Reads a factored offset and multiplies it by the data alignment
/// factor, failing if the product does not fit a signed word.
fn factored_at(s: &Vec<u8>, pos: usize, da: i64) -> (r: Option<(i64, usize)>)
    ensures
        match r {
            Some(p) => spec_uleb128(s@, pos as int) matches Some(q) && spec_factored(
                q.0 as int,
                da as int,
            ) == Some(p.0 as int) && q.1 == p.1,
            None => match spec_uleb128(s@, pos as int) {
                Some(q) => spec_factored(q.0 as int, da as int) is None,
                None => true,
            },
        },
{
    match read_uleb128(s, pos) {
        Some((f, n)) => {
            if f > i64::MAX as u64 {
                return None;
            }
            proof {
                assert(i128::MIN <= (f as int) * (da as int) <= i128::MAX) by (nonlinear_arith)
                    requires
                        0 <= f <= i64::MAX,
                        i64::MIN <= da <= i64::MAX,
                ;
            }
            let prod: i128 = (f as i128) * (da as i128);
            if i64::MIN as i128 <= prod && prod <= i64::MAX as i128 {
                Some((prod as i64, n))
            } else {
                None
            }
        },
        None => None,
    }
}

/// Reads a signed factored offset and multiplies it by the data
/// alignment factor, failing if the product does not fit a signed word.
fn sfactored_at(s: &Vec<u8>, pos: usize, da: i64) -> (r: Option<(i64, usize)>)
    ensures
        match r {
            Some(p) => spec_sleb128(s@, pos as int) matches Some(q) && i64::MIN <= q.0
                <= i64::MAX && spec_factored(q.0, da as int) == Some(p.0 as int) && q.1 == p.1,
            None => match spec_sleb128(s@, pos as int) {
                Some(q) => !(i64::MIN <= q.0 <= i64::MAX) || spec_factored(q.0, da as int) is None,
                None => true,
            },
        },
{
    match read_sleb128(s, pos) {
        Some((f, n)) => {
            proof {
                assert(i128::MIN <= (f as int) * (da as int) <= i128::MAX) by (nonlinear_arith)
                    requires
                        i64::MIN <= f <= i64::MAX,
                        i64::MIN <= da <= i64::MAX,
                ;
            }
            let prod: i128 = (f as i128) * (da as i128);
            if i64::MIN as i128 <= prod && prod <= i64::MAX as i128 {
                Some((prod as i64, n))
            } else {
                None
            }
        },
        None => None,
    }
}

/// Exec twin of [`spec_parse_instr`].
#[verifier::rlimit(100)]
pub fn parse_instr(
    s: &Vec<u8>,
    pos: usize,
    end: usize,
    da: i64,
    fde_encoding: u8,
    bases: PointerBases,
) -> (r: Option<(CfiInstr, usize)>)
    requires
        end <= s@.len(),
    ensures
        match r {
            Some(p) => spec_parse_instr(s@, pos as int, end as int, da as int, fde_encoding, bases)
                matches Some(q) && q.0 == p.0 && q.1 == p.1,
            None => spec_parse_instr(
                s@,
                pos as int,
                end as int,
                da as int,
                fde_encoding,
                bases,
            ) is None,
        },
{
    proof {
        reveal(spec_parse_instr);
    }
    if pos >= s.len() || pos >= end {
        return None;
    }
    let b = s[pos];
    let hi = b & 0xc0;
    if hi == 0x40 {
        Some((CfiInstr::Advance((b & 0x3f) as u64), pos + 1))
    } else if hi == 0x80 {
        match factored_at(s, pos + 1, da) {
            Some((o, n)) => Some((CfiInstr::Offset((b & 0x3f) as u16, o), n)),
            None => None,
        }
    } else if hi == 0xc0 {
        Some((CfiInstr::Restore((b & 0x3f) as u16), pos + 1))
    } else if b == 0x00 {
        Some((CfiInstr::Nop, pos + 1))
    } else if b == 0x01 {
        match parse_pointer(s, pos + 1, fde_encoding, bases) {
            Some((Pointer::Direct(a), n)) => Some((CfiInstr::SetLoc(a), n)),
            _ => None,
        }
    } else if b == 0x02 {
        match read_le_value(s, pos + 1, 1) {
            Some((v, n)) => Some((CfiInstr::Advance(v), n)),
            None => None,
        }
    } else if b == 0x03 {
        match read_le_value(s, pos + 1, 2) {
            Some((v, n)) => Some((CfiInstr::Advance(v), n)),
            None => None,
        }
    } else if b == 0x04 {
        match read_le_value(s, pos + 1, 4) {
            Some((v, n)) => Some((CfiInstr::Advance(v), n)),
            None => None,
        }
    } else if b == 0x05 {
        match reg_at(s, pos + 1) {
            Some((r, n)) => match factored_at(s, n, da) {
                Some((o, n2)) => Some((CfiInstr::Offset(r, o), n2)),
                None => None,
            },
            None => None,
        }
    } else if b == 0x06 {
        match reg_at(s, pos + 1) {
            Some((r, n)) => Some((CfiInstr::Restore(r), n)),
            None => None,
        }
    } else if b == 0x07 {
        match reg_at(s, pos + 1) {
            Some((r, n)) => Some((CfiInstr::Undefined(r), n)),
            None => None,
        }
    } else if b == 0x08 {
        match reg_at(s, pos + 1) {
            Some((r, n)) => Some((CfiInstr::SameValue(r), n)),
            None => None,
        }
    } else if b == 0x09 {
        match reg_at(s, pos + 1) {
            Some((r, n)) => match reg_at(s, n) {
                Some((r2, n2)) => Some((CfiInstr::Register(r, r2), n2)),
                None => None,
            },
            None => None,
        }
    } else if b == 0x0a {
        Some((CfiInstr::RememberState, pos + 1))
    } else if b == 0x0b {
        Some((CfiInstr::RestoreState, pos + 1))
    } else if b == 0x0c {
        match reg_at(s, pos + 1) {
            Some((r, n)) => match read_uleb128(s, n) {
                Some((o, n2)) => if o <= i64::MAX as u64 {
                    Some((CfiInstr::DefCfa(r, o as i64), n2))
                } else {
                    None
                },
                None => None,
            },
            None => None,
        }
    } else if b == 0x0d {
        match reg_at(s, pos + 1) {
            Some((r, n)) => Some((CfiInstr::DefCfaRegister(r), n)),
            None => None,
        }
    } else if b == 0x0e {
        match read_uleb128(s, pos + 1) {
            Some((o, n)) => if o <= i64::MAX as u64 {
                Some((CfiInstr::DefCfaOffset(o as i64), n))
            } else {
                None
            },
            None => None,
        }
    } else if b == 0x0f {
        match block_at(s, pos + 1, end) {
            Some((bs, be)) => Some((CfiInstr::DefCfaExpression(bs, be), be)),
            None => None,
        }
    } else if b == 0x10 {
        match reg_at(s, pos + 1) {
            Some((r, n)) => match block_at(s, n, end) {
                Some((bs, be)) => Some((CfiInstr::Expression(r, bs, be), be)),
                None => None,
            },
            None => None,
        }
    } else if b == 0x11 {
        match reg_at(s, pos + 1) {
            Some((r, n)) => match sfactored_at(s, n, da) {
                Some((o, n2)) => Some((CfiInstr::Offset(r, o), n2)),
                None => None,
            },
            None => None,
        }
    } else if b == 0x12 {
        match reg_at(s, pos + 1) {
            Some((r, n)) => match sfactored_at(s, n, da) {
                Some((o, n2)) => Some((CfiInstr::DefCfa(r, o), n2)),
                None => None,
            },
            None => None,
        }
    } else if b == 0x13 {
        match sfactored_at(s, pos + 1, da) {
            Some((o, n)) => Some((CfiInstr::DefCfaOffset(o), n)),
            None => None,
        }
    } else if b == 0x14 {
        match reg_at(s, pos + 1) {
            Some((r, n)) => match factored_at(s, n, da) {
                Some((o, n2)) => Some((CfiInstr::ValOffset(r, o), n2)),
                None => None,
            },
            None => None,
        }
    } else if b == 0x15 {
        match reg_at(s, pos + 1) {
            Some((r, n)) => match sfactored_at(s, n, da) {
                Some((o, n2)) => Some((CfiInstr::ValOffset(r, o), n2)),
                None => None,
            },
            None => None,
        }
    } else if b == 0x16 {
        match reg_at(s, pos + 1) {
            Some((r, n)) => match block_at(s, n, end) {
                Some((bs, be)) => Some((CfiInstr::ValExpression(r, bs, be), be)),
                None => None,
            },
            None => None,
        }
    } else if b == 0x2e {
        match read_uleb128(s, pos + 1) {
            Some((_sz, n)) => Some((CfiInstr::ArgsSize, n)),
            None => None,
        }
    } else {
        None
    }
}

/// The ghost image of the interpreter's implicit stack.
pub open spec fn spec_stack_view(v: Seq<(CfaRule, [Option<RegisterRule>; 17])>) -> Seq<
    (CfaRule, Seq<Option<RegisterRule>>),
> {
    v.map_values(|e: (CfaRule, [Option<RegisterRule>; 17])| (e.0, e.1@))
}

/// Runs the instructions in `s[pos..end]` from the given row state and
/// yields the row in force at `pc`: the run stops at the first location
/// past `pc`, or at the end of the program.
pub open spec fn spec_run_cfi(
    s: Seq<u8>,
    pos: int,
    end: int,
    pc: int,
    loc: int,
    cfa: CfaRule,
    regs: Seq<Option<RegisterRule>>,
    stack: Seq<(CfaRule, Seq<Option<RegisterRule>>)>,
    init: Seq<Option<RegisterRule>>,
    ca: int,
    da: int,
    fde_encoding: u8,
    bases: PointerBases,
) -> Option<(CfaRule, Seq<Option<RegisterRule>>)>
    decreases end - pos,
{
    if pos == end {
        Some((cfa, regs))
    } else if !(0 <= pos < end <= s.len()) {
        None
    } else {
        match spec_parse_instr(s, pos, end, da, fde_encoding, bases) {
            None => None,
            Some((instr, n)) => if n > end || n <= pos {
                None
            } else {
                match instr {
                    CfiInstr::Advance(d) => {
                        let nl = loc + d * ca;
                        if nl > u64::MAX {
                            None
                        } else if nl > pc {
                            Some((cfa, regs))
                        } else {
                            spec_run_cfi(
                                s,
                                n,
                                end,
                                pc,
                                nl,
                                cfa,
                                regs,
                                stack,
                                init,
                                ca,
                                da,
                                fde_encoding,
                                bases,
                            )
                        }
                    },
                    CfiInstr::SetLoc(a) => if a > pc {
                        Some((cfa, regs))
                    } else {
                        spec_run_cfi(
                            s,
                            n,
                            end,
                            pc,
                            a as int,
                            cfa,
                            regs,
                            stack,
                            init,
                            ca,
                            da,
                            fde_encoding,
                            bases,
                        )
                    },
                    CfiInstr::Offset(r, o) => if r < NUM_REGS {
                        spec_run_cfi(
                            s,
                            n,
                            end,
                            pc,
                            loc,
                            cfa,
                            regs.update(r as int, Some(RegisterRule::Offset(o))),
                            stack,
                            init,
                            ca,
                            da,
                            fde_encoding,
                            bases,
                        )
                    } else {
                        None
                    },
                    CfiInstr::ValOffset(r, o) => if r < NUM_REGS {
                        spec_run_cfi(
                            s,
                            n,
                            end,
                            pc,
                            loc,
                            cfa,
                            regs.update(r as int, Some(RegisterRule::ValOffset(o))),
                            stack,
                            init,
                            ca,
                            da,
                            fde_encoding,
                            bases,
                        )
                    } else {
                        None
                    },
                    CfiInstr::Restore(r) => if r < NUM_REGS {
                        spec_run_cfi(
                            s,
                            n,
                            end,
                            pc,
                            loc,
                            cfa,
                            regs.update(r as int, init[r as int]),
                            stack,
                            init,
                            ca,
                            da,
                            fde_encoding,
                            bases,
                        )
                    } else {
                        None
                    },
                    CfiInstr::Undefined(r) => if r < NUM_REGS {
                        spec_run_cfi(
                            s,
                            n,
                            end,
                            pc,
                            loc,
                            cfa,
                            regs.update(r as int, Some(RegisterRule::Undefined)),
                            stack,
                            init,
                            ca,
                            da,
                            fde_encoding,
                            bases,
                        )
                    } else {
                        None
                    },
                    CfiInstr::SameValue(r) => if r < NUM_REGS {
                        spec_run_cfi(
                            s,
                            n,
                            end,
                            pc,
                            loc,
                            cfa,
                            regs.update(r as int, Some(RegisterRule::SameValue)),
                            stack,
                            init,
                            ca,
                            da,
                            fde_encoding,
                            bases,
                        )
                    } else {
                        None
                    },
                    CfiInstr::Register(r, r2) => if r < NUM_REGS {
                        spec_run_cfi(
                            s,
                            n,
                            end,
                            pc,
                            loc,
                            cfa,
                            regs.update(r as int, Some(RegisterRule::Register(r2))),
                            stack,
                            init,
                            ca,
                            da,
                            fde_encoding,
                            bases,
                        )
                    } else {
                        None
                    },
                    CfiInstr::RememberState => spec_run_cfi(
                        s,
                        n,
                        end,
                        pc,
                        loc,
                        cfa,
                        regs,
                        stack.push((cfa, regs)),
                        init,
                        ca,
                        da,
                        fde_encoding,
                        bases,
                    ),
                    CfiInstr::RestoreState => if stack.len() == 0 {
                        None
                    } else {
                        spec_run_cfi(
                            s,
                            n,
                            end,
                            pc,
                            loc,
                            stack.last().0,
                            stack.last().1,
                            stack.drop_last(),
                            init,
                            ca,
                            da,
                            fde_encoding,
                            bases,
                        )
                    },
                    CfiInstr::DefCfa(r, o) => spec_run_cfi(
                        s,
                        n,
                        end,
                        pc,
                        loc,
                        CfaRule::RegisterAndOffset { register: r, offset: o },
                        regs,
                        stack,
                        init,
                        ca,
                        da,
                        fde_encoding,
                        bases,
                    ),
                    CfiInstr::DefCfaRegister(r) => match cfa {
                        CfaRule::RegisterAndOffset { register: _, offset } => spec_run_cfi(
                            s,
                            n,
                            end,
                            pc,
                            loc,
                            CfaRule::RegisterAndOffset { register: r, offset },
                            regs,
                            stack,
                            init,
                            ca,
                            da,
                            fde_encoding,
                            bases,
                        ),
                        CfaRule::Expression(..) => None,
                    },
                    CfiInstr::DefCfaOffset(o) => match cfa {
                        CfaRule::RegisterAndOffset { register, offset: _ } => spec_run_cfi(
                            s,
                            n,
                            end,
                            pc,
                            loc,
                            CfaRule::RegisterAndOffset { register, offset: o },
                            regs,
                            stack,
                            init,
                            ca,
                            da,
                            fde_encoding,
                            bases,
                        ),
                        CfaRule::Expression(..) => None,
                    },
                    CfiInstr::DefCfaExpression(a, b) => spec_run_cfi(
                        s,
                        n,
                        end,
                        pc,
                        loc,
                        CfaRule::Expression(a, b),
                        regs,
                        stack,
                        init,
                        ca,
                        da,
                        fde_encoding,
                        bases,
                    ),
                    CfiInstr::Expression(r, a, b) => if r < NUM_REGS {
                        spec_run_cfi(
                            s,
                            n,
                            end,
                            pc,
                            loc,
                            cfa,
                            regs.update(r as int, Some(RegisterRule::Expression(a, b))),
                            stack,
                            init,
                            ca,
                            da,
                            fde_encoding,
                            bases,
                        )
                    } else {
                        None
                    },
                    CfiInstr::ValExpression(r, a, b) => if r < NUM_REGS {
                        spec_run_cfi(
                            s,
                            n,
                            end,
                            pc,
                            loc,
                            cfa,
                            regs.update(r as int, Some(RegisterRule::ValExpression(a, b))),
                            stack,
                            init,
                            ca,
                            da,
                            fde_encoding,
                            bases,
                        )
                    } else {
                        None
                    },
                    CfiInstr::ArgsSize => spec_run_cfi(
                        s,
                        n,
                        end,
                        pc,
                        loc,
                        cfa,
                        regs,
                        stack,
                        init,
                        ca,
                        da,
                        fde_encoding,
                        bases,
                    ),
                    CfiInstr::Nop => spec_run_cfi(
                        s,
                        n,
                        end,
                        pc,
                        loc,
                        cfa,
                        regs,
                        stack,
                        init,
                        ca,
                        da,
                        fde_encoding,
                        bases,
                    ),
                }
            },
        }
    }
}

/// Exec twin of [`spec_run_cfi`].
#[verifier::rlimit(100)]
fn run_cfi(
    s: &Vec<u8>,
    pos: usize,
    end: usize,
    pc: u64,
    loc: u64,
    cfa: CfaRule,
    regs: [Option<RegisterRule>; 17],
    stack: Vec<(CfaRule, [Option<RegisterRule>; 17])>,
    init: &[Option<RegisterRule>; 17],
    ca: u64,
    da: i64,
    fde_encoding: u8,
    bases: PointerBases,
) -> (r: Option<Row>)
    ensures
        match r {
            Some(row) => spec_run_cfi(
                s@,
                pos as int,
                end as int,
                pc as int,
                loc as int,
                cfa,
                regs@,
                spec_stack_view(stack@),
                init@,
                ca as int,
                da as int,
                fde_encoding,
                bases,
            ) == Some((row.cfa, row.regs@)),
            None => spec_run_cfi(
                s@,
                pos as int,
                end as int,
                pc as int,
                loc as int,
                cfa,
                regs@,
                spec_stack_view(stack@),
                init@,
                ca as int,
                da as int,
                fde_encoding,
                bases,
            ) is None,
        },
    decreases end - pos,
{
    if pos == end {
        return Some(Row { cfa, regs });
    }
    if pos > end || end > s.len() {
        return None;
    }
    let (instr, n) = match parse_instr(s, pos, end, da, fde_encoding, bases) {
        Some(p) => p,
        None => {
            return None;
        },
    };
    if n > end || n <= pos {
        return None;
    }
    match instr {
        CfiInstr::Advance(d) => {
            let step = match d.checked_mul(ca) {
                Some(p) => p,
                None => {
                    return None;
                },
            };
            let nl = match loc.checked_add(step) {
                Some(p) => p,
                None => {
                    return None;
                },
            };
            if nl > pc {
                Some(Row { cfa, regs })
            } else {
                run_cfi(s, n, end, pc, nl, cfa, regs, stack, init, ca, da, fde_encoding, bases)
            }
        },
        CfiInstr::SetLoc(a) => if a > pc {
            Some(Row { cfa, regs })
        } else {
            run_cfi(s, n, end, pc, a, cfa, regs, stack, init, ca, da, fde_encoding, bases)
        },
        CfiInstr::Offset(r, o) => if r < NUM_REGS as u16 {
            let mut regs2 = regs;
            regs2[r as usize] = Some(RegisterRule::Offset(o));
            run_cfi(s, n, end, pc, loc, cfa, regs2, stack, init, ca, da, fde_encoding, bases)
        } else {
            None
        },
        CfiInstr::ValOffset(r, o) => if r < NUM_REGS as u16 {
            let mut regs2 = regs;
            regs2[r as usize] = Some(RegisterRule::ValOffset(o));
            run_cfi(s, n, end, pc, loc, cfa, regs2, stack, init, ca, da, fde_encoding, bases)
        } else {
            None
        },
        CfiInstr::Restore(r) => if r < NUM_REGS as u16 {
            let mut regs2 = regs;
            regs2[r as usize] = init[r as usize];
            run_cfi(s, n, end, pc, loc, cfa, regs2, stack, init, ca, da, fde_encoding, bases)
        } else {
            None
        },
        CfiInstr::Undefined(r) => if r < NUM_REGS as u16 {
            let mut regs2 = regs;
            regs2[r as usize] = Some(RegisterRule::Undefined);
            run_cfi(s, n, end, pc, loc, cfa, regs2, stack, init, ca, da, fde_encoding, bases)
        } else {
            None
        },
        CfiInstr::SameValue(r) => if r < NUM_REGS as u16 {
            let mut regs2 = regs;
            regs2[r as usize] = Some(RegisterRule::SameValue);
            run_cfi(s, n, end, pc, loc, cfa, regs2, stack, init, ca, da, fde_encoding, bases)
        } else {
            None
        },
        CfiInstr::Register(r, r2) => if r < NUM_REGS as u16 {
            let mut regs2 = regs;
            regs2[r as usize] = Some(RegisterRule::Register(r2));
            run_cfi(s, n, end, pc, loc, cfa, regs2, stack, init, ca, da, fde_encoding, bases)
        } else {
            None
        },
        CfiInstr::RememberState => {
            let mut stack2 = stack;
            stack2.push((cfa, regs));
            proof {
                assert(spec_stack_view(stack2@) =~= spec_stack_view(stack@).push((cfa, regs@)));
            }
            run_cfi(s, n, end, pc, loc, cfa, regs, stack2, init, ca, da, fde_encoding, bases)
        },
        CfiInstr::RestoreState => {
            let mut stack2 = stack;
            match stack2.pop() {
                None => None,
                Some((cfa2, regs2)) => {
                    proof {
                        assert(spec_stack_view(stack2@) =~= spec_stack_view(stack@).drop_last());
                        assert(spec_stack_view(stack@).last() == (cfa2, regs2@));
                    }
                    run_cfi(
                        s,
                        n,
                        end,
                        pc,
                        loc,
                        cfa2,
                        regs2,
                        stack2,
                        init,
                        ca,
                        da,
                        fde_encoding,
                        bases,
                    )
                },
            }
        },
        CfiInstr::DefCfa(r, o) => run_cfi(
            s,
            n,
            end,
            pc,
            loc,
            CfaRule::RegisterAndOffset { register: r, offset: o },
            regs,
            stack,
            init,
            ca,
            da,
            fde_encoding,
            bases,
        ),
        CfiInstr::DefCfaRegister(r) => match cfa {
            CfaRule::RegisterAndOffset { register: _, offset } => run_cfi(
                s,
                n,
                end,
                pc,
                loc,
                CfaRule::RegisterAndOffset { register: r, offset },
                regs,
                stack,
                init,
                ca,
                da,
                fde_encoding,
                bases,
            ),
            CfaRule::Expression(..) => None,
        },
        CfiInstr::DefCfaOffset(o) => match cfa {
            CfaRule::RegisterAndOffset { register, offset: _ } => run_cfi(
                s,
                n,
                end,
                pc,
                loc,
                CfaRule::RegisterAndOffset { register, offset: o },
                regs,
                stack,
                init,
                ca,
                da,
                fde_encoding,
                bases,
            ),
            CfaRule::Expression(..) => None,
        },
        CfiInstr::DefCfaExpression(a, b) => run_cfi(
            s,
            n,
            end,
            pc,
            loc,
            CfaRule::Expression(a, b),
            regs,
            stack,
            init,
            ca,
            da,
            fde_encoding,
            bases,
        ),
        CfiInstr::Expression(r, a, b) => if r < NUM_REGS as u16 {
            let mut regs2 = regs;
            regs2[r as usize] = Some(RegisterRule::Expression(a, b));
            run_cfi(s, n, end, pc, loc, cfa, regs2, stack, init, ca, da, fde_encoding, bases)
        } else {
            None
        },
        CfiInstr::ValExpression(r, a, b) => if r < NUM_REGS as u16 {
            let mut regs2 = regs;
            regs2[r as usize] = Some(RegisterRule::ValExpression(a, b));
            run_cfi(s, n, end, pc, loc, cfa, regs2, stack, init, ca, da, fde_encoding, bases)
        } else {
            None
        },
        CfiInstr::ArgsSize => run_cfi(
            s,
            n,
            end,
            pc,
            loc,
            cfa,
            regs,
            stack,
            init,
            ca,
            da,
            fde_encoding,
            bases,
        ),
        CfiInstr::Nop => run_cfi(
            s,
            n,
            end,
            pc,
            loc,
            cfa,
            regs,
            stack,
            init,
            ca,
            da,
            fde_encoding,
            bases,
        ),
    }
}

/// The CFA rule a row starts from before any instruction defines one.
pub open spec fn spec_default_cfa() -> CfaRule {
    CfaRule::RegisterAndOffset { register: 0, offset: 0 }
}

/// The row of the unwind table in force at `pc`: the CIE's initial
/// instructions run in full, then the FDE's instructions up to `pc`.
#[verifier::opaque]
pub open spec fn spec_unwind_info(
    s: Seq<u8>,
    cie: crate::eh_frame::Cie,
    fde: crate::eh_frame::Fde,
    pc: int,
    bases: PointerBases,
) -> Option<(CfaRule, Seq<Option<RegisterRule>>)> {
    let none_regs = Seq::new(NUM_REGS as nat, |i: int| None::<RegisterRule>);
    match spec_run_cfi(
        s,
        cie.instructions_start as int,
        cie.instructions_end as int,
        u64::MAX as int,
        fde.initial_address as int,
        spec_default_cfa(),
        none_regs,
        Seq::empty(),
        none_regs,
        cie.code_align as int,
        cie.data_align as int,
        cie.aug.fde_encoding,
        bases,
    ) {
        None => None,
        Some((icfa, iregs)) => spec_run_cfi(
            s,
            fde.instructions_start as int,
            fde.instructions_end as int,
            pc,
            fde.initial_address as int,
            icfa,
            iregs,
            Seq::empty(),
            iregs,
            cie.code_align as int,
            cie.data_align as int,
            cie.aug.fde_encoding,
            bases,
        ),
    }
}

/// Decodes the unwind-table row in force at `pc` for `fde`, whose
/// records live in the section bytes `s`.
pub fn unwind_info_for_address(
    s: &Vec<u8>,
    cie: &crate::eh_frame::Cie,
    fde: &crate::eh_frame::Fde,
    pc: u64,
    bases: PointerBases,
) -> (r: Option<Row>)
    ensures
        match r {
            Some(row) => spec_unwind_info(s@, *cie, *fde, pc as int, bases) == Some(
                (row.cfa, row.regs@),
            ),
            None => spec_unwind_info(s@, *cie, *fde, pc as int, bases) is None,
        },
{
    let none_regs: [Option<RegisterRule>; 17] = [None; 17];
    proof {
        reveal(spec_unwind_info);
        assert(none_regs@ =~= Seq::new(NUM_REGS as nat, |i: int| None::<RegisterRule>));
        assert(spec_stack_view(Seq::empty()) =~= Seq::empty());
    }
    let initial = match run_cfi(
        s,
        cie.instructions_start,
        cie.instructions_end,
        u64::MAX,
        fde.initial_address,
        CfaRule::RegisterAndOffset { register: 0, offset: 0 },
        none_regs,
        Vec::new(),
        &none_regs,
        cie.code_align,
        cie.data_align,
        cie.aug.fde_encoding,
        bases,
    ) {
        Some(row) => row,
        None => {
            return None;
        },
    };
    run_cfi(
        s,
        fde.instructions_start,
        fde.instructions_end,
        pc,
        fde.initial_address,
        initial.cfa,
        initial.regs,
        Vec::new(),
        &initial.regs,
        cie.code_align,
        cie.data_align,
        cie.aug.fde_encoding,
        bases,
    )
}

} // verus!
