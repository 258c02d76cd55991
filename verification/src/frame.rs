//! A frame of the walked stack: an FDE search result and the decoded
//! unwind-table row for the frame's program counter.
//!
//! `unwind` reconstructs the caller's register file: it resolves the
//! CFA, seeds the new file with `SP = CFA` and `RA = 0`, and applies
//! each register rule of the row, reading stack memory where a rule
//! asks for it.

use crate::arch::{Context, NUM_REGS, RA, SP};
use crate::cfi::{spec_unwind_info, unwind_info_for_address, CfaRule, RegisterRule, Row};
use crate::encoding::PointerBases;
use crate::expr::{evaluate_expression, spec_eval};
use crate::find_fde::{spec_global_find, BaseAddresses, FDESearchResult, GlobalFinder};
use crate::mem::Memory;
use vstd::prelude::*;

verus! {

/// Decoding the frame's unwind information failed: the tables are
/// malformed, outside the supported subset, or ask for an unreadable
/// address.
#[derive(Clone, Copy, PartialEq, Eq, Structural, Debug)]
pub struct CfiError;

/// One frame of the call stack.
#[derive(Clone, PartialEq, Eq, Debug)]
pub struct Frame {
    /// The FDE covering the frame's program counter, with its section.
    pub fde_result: FDESearchResult,
    /// The unwind-table row for that counter.
    pub row: Row,
}

/// The pointer bases the frame's instructions are decoded against.
pub open spec fn spec_frame_bases(res: &FDESearchResult) -> PointerBases {
    PointerBases {
        section: res.eh_frame.addr,
        text: res.bases.text,
        data: res.bases.got,
        func: None,
    }
}

/// The CFA a rule yields, computed over the old register file, with
/// expressions read from the section bytes.
pub open spec fn spec_cfa_value(bytes: Seq<u8>, rule: CfaRule, ctx: Seq<u64>, mem: &Memory) -> Option<
    u64,
> {
    match rule {
        CfaRule::RegisterAndOffset { register, offset } => if register < NUM_REGS {
            Some(ctx[register as int].wrapping_add_signed(offset))
        } else {
            None
        },
        CfaRule::Expression(a, b) => spec_eval(bytes, a as int, b as int, ctx, mem, Seq::empty()),
    }
}

/// The caller's value of register `i` under a row: the rule applied
/// over the old file and memory, or the seed (`SP = CFA`, `RA = 0`,
/// any other register carried over) where the row has no rule.
pub open spec fn spec_reg_value(
    bytes: Seq<u8>,
    regs: Seq<Option<RegisterRule>>,
    ctx: Seq<u64>,
    mem: &Memory,
    cfa: u64,
    i: int,
) -> Option<u64> {
    match regs[i] {
        None => Some(
            if i == SP as int {
                cfa
            } else if i == RA as int {
                0
            } else {
                ctx[i]
            },
        ),
        Some(rule) => match rule {
            RegisterRule::Undefined => Some(ctx[i]),
            RegisterRule::SameValue => Some(ctx[i]),
            RegisterRule::Offset(o) => {
                let addr = cfa.wrapping_add_signed(o);
                if mem.spec_range_in(addr as int, 8) {
                    Some(mem.spec_word_at(addr as int) as u64)
                } else {
                    None
                }
            },
            RegisterRule::ValOffset(o) => Some(cfa.wrapping_add_signed(o)),
            RegisterRule::Register(r) => if r < NUM_REGS {
                Some(ctx[r as int])
            } else {
                None
            },
            RegisterRule::Expression(a, b) => match spec_eval(
                bytes,
                a as int,
                b as int,
                ctx,
                mem,
                Seq::empty(),
            ) {
                Some(addr) => if mem.spec_range_in(addr as int, 8) {
                    Some(mem.spec_word_at(addr as int) as u64)
                } else {
                    None
                },
                None => None,
            },
            RegisterRule::ValExpression(a, b) => spec_eval(
                bytes,
                a as int,
                b as int,
                ctx,
                mem,
                Seq::empty(),
            ),
        },
    }
}

/// The caller's whole register file under a row, if every rule
/// applies.
pub open spec fn spec_apply_row(
    bytes: Seq<u8>,
    cfa_rule: CfaRule,
    regs: Seq<Option<RegisterRule>>,
    ctx: Seq<u64>,
    mem: &Memory,
) -> Option<Seq<u64>> {
    match spec_cfa_value(bytes, cfa_rule, ctx, mem) {
        None => None,
        Some(cfa) => if forall|i: int|
            0 <= i < NUM_REGS ==> spec_reg_value(bytes, regs, ctx, mem, cfa, i) is Some {
            Some(Seq::new(NUM_REGS as nat, |i: int| spec_reg_value(bytes, regs, ctx, mem, cfa, i)->Some_0))
        } else {
            None
        },
    }
}

impl Frame {
    /// The CFA of this frame, computed over the old register file.
    pub open spec fn spec_cfa(&self, ctx: Seq<u64>, mem: &Memory) -> Option<u64> {
        spec_cfa_value(self.fde_result.eh_frame.bytes@, self.row.cfa, ctx, mem)
    }

    /// The caller's value of register `i`: the row's rule applied over
    /// the old file and memory, or the seed (`SP = CFA`, `RA = 0`, any
    /// other register carried over) where the row has no rule.
    pub open spec fn spec_reg_after(&self, ctx: Seq<u64>, mem: &Memory, cfa: u64, i: int) -> Option<
        u64,
    > {
        spec_reg_value(self.fde_result.eh_frame.bytes@, self.row.regs@, ctx, mem, cfa, i)
    }

    /// The caller's whole register file, if every rule applies.
    pub open spec fn spec_unwind(&self, ctx: Seq<u64>, mem: &Memory) -> Option<Seq<u64>> {
        spec_apply_row(self.fde_result.eh_frame.bytes@, self.row.cfa, self.row.regs@, ctx, mem)
    }

    /// Computes the caller's register file from this frame's row.
    pub fn unwind(&self, ctx: &Context, mem: &Memory) -> (r: Result<Context, CfiError>)
        requires
            mem.wf(),
        ensures
            match r {
                Ok(c) => self.spec_unwind(ctx@, mem) == Some(c@),
                Err(_) => self.spec_unwind(ctx@, mem) is None,
            },
    {
        let cfa: u64 = match self.row.cfa {
            CfaRule::RegisterAndOffset { register, offset } => {
                if register >= NUM_REGS as u16 {
                    return Err(CfiError);
                }
                ctx.get(register).wrapping_add_signed(offset)
            },
            CfaRule::Expression(a, b) => {
                match evaluate_expression(&self.fde_result.eh_frame.bytes, a, b, ctx, mem) {
                    Some(v) => v,
                    None => {
                        return Err(CfiError);
                    },
                }
            },
        };
        let mut out = *ctx;
        out.set(SP, cfa);
        out.set(RA, 0);
        let ghost seed = out@;
        let mut i: usize = 0;
        while i < NUM_REGS
            invariant
                i <= NUM_REGS,
                mem.wf(),
                spec_cfa_value(self.fde_result.eh_frame.bytes@, self.row.cfa, ctx@, mem) == Some(
                    cfa,
                ),
                out@.len() == NUM_REGS,
                seed.len() == NUM_REGS,
                forall|j: int| 0 <= j < NUM_REGS ==> seed[j] == (if j == SP as int {
                    cfa
                } else if j == RA as int {
                    0u64
                } else {
                    ctx@[j]
                }),
                forall|j: int|
                    i <= j < NUM_REGS ==> out@[j] == seed[j],
                forall|j: int|
                    0 <= j < i ==> spec_reg_value(
                        self.fde_result.eh_frame.bytes@,
                        self.row.regs@,
                        ctx@,
                        mem,
                        cfa,
                        j,
                    ) == Some(out@[j]),
            decreases NUM_REGS - i,
        {
            let reg = i as u16;
            match self.row.regs[i] {
                None => {
                    proof {
                        assert(out@[i as int] == seed[i as int]);
                        assert(seed[i as int] == (if i as int == SP as int {
                            cfa
                        } else if i as int == RA as int {
                            0u64
                        } else {
                            ctx@[i as int]
                        }));
                        assert(spec_reg_value(
                            self.fde_result.eh_frame.bytes@,
                            self.row.regs@,
                            ctx@,
                            mem,
                            cfa,
                            i as int,
                        ) == Some(out@[i as int]));
                    }
                },
                Some(rule) => {
                    let value: u64 = match rule {
                        RegisterRule::Undefined => ctx.get(reg),
                        RegisterRule::SameValue => ctx.get(reg),
                        RegisterRule::Offset(o) => {
                            let addr = cfa.wrapping_add_signed(o);
                            match mem.read_word(addr) {
                                Some(v) => v,
                                None => {
                                    proof {
                                        lemma_unwind_err(self.fde_result.eh_frame.bytes@, self.row.cfa, self.row.regs@, ctx@, mem, cfa, i as int);
                                    }
                                    return Err(CfiError);
                                },
                            }
                        },
                        RegisterRule::ValOffset(o) => cfa.wrapping_add_signed(o),
                        RegisterRule::Register(r) => {
                            if r >= NUM_REGS as u16 {
                                proof {
                                    lemma_unwind_err(self.fde_result.eh_frame.bytes@, self.row.cfa, self.row.regs@, ctx@, mem, cfa, i as int);
                                }
                                return Err(CfiError);
                            }
                            ctx.get(r)
                        },
                        RegisterRule::Expression(a, b) => {
                            match evaluate_expression(
                                &self.fde_result.eh_frame.bytes,
                                a,
                                b,
                                ctx,
                                mem,
                            ) {
                                Some(addr) => match mem.read_word(addr) {
                                    Some(v) => v,
                                    None => {
                                        proof {
                                            lemma_unwind_err(self.fde_result.eh_frame.bytes@, self.row.cfa, self.row.regs@, ctx@, mem, cfa, i as int);
                                        }
                                        return Err(CfiError);
                                    },
                                },
                                None => {
                                    proof {
                                        lemma_unwind_err(self.fde_result.eh_frame.bytes@, self.row.cfa, self.row.regs@, ctx@, mem, cfa, i as int);
                                    }
                                    return Err(CfiError);
                                },
                            }
                        },
                        RegisterRule::ValExpression(a, b) => {
                            match evaluate_expression(
                                &self.fde_result.eh_frame.bytes,
                                a,
                                b,
                                ctx,
                                mem,
                            ) {
                                Some(v) => v,
                                None => {
                                    proof {
                                        lemma_unwind_err(self.fde_result.eh_frame.bytes@, self.row.cfa, self.row.regs@, ctx@, mem, cfa, i as int);
                                    }
                                    return Err(CfiError);
                                },
                            }
                        },
                    };
                    out.set(reg, value);
                    proof {
                        assert(spec_reg_value(
                            self.fde_result.eh_frame.bytes@,
                            self.row.regs@,
                            ctx@,
                            mem,
                            cfa,
                            i as int,
                        ) == Some(out@[i as int]));
                    }
                },
            }
            i = i + 1;
        }
        proof {
            let bytes = self.fde_result.eh_frame.bytes@;
            let regs = self.row.regs@;
            assert(forall|j: int|
                0 <= j < NUM_REGS ==> spec_reg_value(bytes, regs, ctx@, mem, cfa, j) is Some);
            assert(out@ =~= Seq::new(
                NUM_REGS as nat,
                |j: int| spec_reg_value(bytes, regs, ctx@, mem, cfa, j)->Some_0,
            ));
        }
        Ok(out)
    }

    /// The address of the frame's personality routine: the FDE's
    /// pointer, dereferenced through `mem` when the encoding is
    /// indirect.  `None` when the CIE names no personality, or when an
    /// indirect pointer is unreadable.
    pub fn personality(&self, mem: &Memory) -> (r: Option<u64>)
        requires
            mem.wf(),
        ensures
            r == spec_personality(self, mem),
    {
        match self.fde_result.fde.cie.aug.personality {
            None => None,
            Some(p) => crate::util::deref_pointer(p, mem),
        }
    }

    /// The frame's language-specific data area, zero when none is
    /// present or an indirect pointer is unreadable.
    pub fn lsda(&self, mem: &Memory) -> (r: u64)
        requires
            mem.wf(),
        ensures
            r == spec_lsda(self, mem),
    {
        match self.fde_result.fde.lsda {
            None => 0,
            Some(p) => match crate::util::deref_pointer(p, mem) {
                Some(v) => v,
                None => 0,
            },
        }
    }

    /// The first address of the function the frame belongs to.
    pub fn initial_address(&self) -> (r: u64)
        ensures
            r == self.fde_result.fde.initial_address,
    {
        self.fde_result.fde.initial_address
    }

    /// The base addresses the frame's tables were decoded with.
    pub fn bases(&self) -> (r: BaseAddresses)
        ensures
            r == self.fde_result.bases,
    {
        self.fde_result.bases
    }

    /// Whether the frame's CIE marks a signal trampoline.
    pub fn is_signal_trampoline(&self) -> (r: bool)
        ensures
            r == self.fde_result.fde.cie.aug.is_signal_trampoline,
    {
        self.fde_result.fde.cie.aug.is_signal_trampoline
    }

    /// Builds the frame for the register file `ctx`: end of stack when
    /// the return address is zero or no FDE covers the call site; an
    /// error when the tables are malformed.
    pub fn from_context(ctx: &Context, finder: &GlobalFinder, mem: &Memory) -> (r: Result<
        Option<Frame>,
        CfiError,
    >)
        requires
            mem.wf(),
        ensures
            match r {
                Ok(None) => ctx@[RA as int] == 0 || spec_global_find(
                    finder,
                    ctx@[RA as int] - 1,
                    mem,
                ) is None,
                Ok(Some(frame)) => ctx@[RA as int] != 0 && spec_global_find(
                    finder,
                    ctx@[RA as int] - 1,
                    mem,
                ) == Some((frame.fde_result.fde, frame.fde_result.bases, frame.fde_result.eh_frame@))
                    && spec_unwind_info(
                    frame.fde_result.eh_frame.bytes@,
                    frame.fde_result.fde.cie,
                    frame.fde_result.fde,
                    ctx@[RA as int] - 1,
                    spec_frame_bases(&frame.fde_result),
                ) == Some((frame.row.cfa, frame.row.regs@)),
                Err(_) => ctx@[RA as int] != 0 && (match spec_global_find(
                    finder,
                    ctx@[RA as int] - 1,
                    mem,
                ) {
                    Some(res) => spec_unwind_info(
                        res.2.1,
                        res.0.cie,
                        res.0,
                        ctx@[RA as int] - 1,
                        PointerBases {
                            section: res.2.0,
                            text: res.1.text,
                            data: res.1.got,
                            func: None,
                        },
                    ) is None,
                    None => false,
                }),
            },
    {
        let ra = ctx.ra();
        if ra == 0 {
            return Ok(None);
        }
        let pc = ra - 1;
        let fde_result = match finder.find_fde(pc, mem) {
            Some(v) => v,
            None => {
                return Ok(None);
            },
        };
        let bases = PointerBases {
            section: fde_result.eh_frame.addr,
            text: fde_result.bases.text,
            data: fde_result.bases.got,
            func: None,
        };
        let row = match unwind_info_for_address(
            &fde_result.eh_frame.bytes,
            &fde_result.fde.cie,
            &fde_result.fde,
            pc,
            bases,
        ) {
            Some(row) => row,
            None => {
                return Err(CfiError);
            },
        };
        Ok(Some(Frame { fde_result, row }))
    }
}

/// The frame's personality routine address, as `personality` returns
/// it.
pub open spec fn spec_personality(frame: &Frame, mem: &Memory) -> Option<u64> {
    match frame.fde_result.fde.cie.aug.personality {
        None => None,
        Some(p) => match crate::util::spec_deref_pointer(p, mem) {
            Some(v) => Some(v as u64),
            None => None,
        },
    }
}

/// The frame's LSDA address, as `lsda` returns it.
pub open spec fn spec_lsda(frame: &Frame, mem: &Memory) -> u64 {
    match frame.fde_result.fde.lsda {
        None => 0,
        Some(p) => match crate::util::spec_deref_pointer(p, mem) {
            Some(v) => v as u64,
            None => 0,
        },
    }
}

/// A failing rule makes the whole unwind fail.
proof fn lemma_unwind_err(
    bytes: Seq<u8>,
    cfa_rule: CfaRule,
    regs: Seq<Option<RegisterRule>>,
    ctx: Seq<u64>,
    mem: &Memory,
    cfa: u64,
    i: int,
)
    requires
        0 <= i < NUM_REGS,
        spec_cfa_value(bytes, cfa_rule, ctx, mem) == Some(cfa),
        spec_reg_value(bytes, regs, ctx, mem, cfa, i) is None,
    ensures
        spec_apply_row(bytes, cfa_rule, regs, ctx, mem) is None,
{
    assert(!(forall|j: int|
        0 <= j < NUM_REGS ==> spec_reg_value(bytes, regs, ctx, mem, cfa, j) is Some)) by {
        assert(spec_reg_value(bytes, regs, ctx, mem, cfa, i) is None);
    }
}

/// After `unwind`, the stack pointer of the new register file is the
/// CFA computed from the old one, whenever the row does not override
/// the stack pointer with a rule of its own.
pub proof fn lemma_unwind_sets_sp_to_cfa(frame: &Frame, ctx: Seq<u64>, mem: &Memory, out: Seq<u64>)
    requires
        frame.spec_unwind(ctx, mem) == Some(out),
        frame.row.regs@[SP as int] is None,
    ensures
        frame.spec_cfa(ctx, mem) matches Some(cfa) && out[SP as int] == cfa,
{
}

/// After `unwind`, the return address of the new register file is
/// zero unless the row recovers one, so a walk that meets a frame
/// without a return-address rule terminates at the next step.
pub proof fn lemma_unwind_clears_ra(frame: &Frame, ctx: Seq<u64>, mem: &Memory, out: Seq<u64>)
    requires
        frame.spec_unwind(ctx, mem) == Some(out),
        frame.row.regs@[RA as int] is None,
    ensures
        out[RA as int] == 0,
{
}

} // verus!
