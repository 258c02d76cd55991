//! The two-phase unwind state machine.
//!
//! `_Unwind_RaiseException` walks the modelled stack twice: phase 1
//! searches for a handler, phase 2 runs cleanups up to it and yields
//! the register file to install.  Personality routines and stop
//! functions are data — a script saying what the routine returns for
//! each kind of invocation — so every decision of the protocol is
//! verified; the calls the machine would make are returned as a trace.

use crate::abi::{
    UnwindAction,
    UnwindReasonCode,
    CLEANUP_PHASE,
    CONTINUE_UNWIND,
    END_OF_STACK,
    END_OF_STACK_ACTION,
    FATAL_PHASE1_ERROR,
    FATAL_PHASE2_ERROR,
    FORCE_UNWIND,
    HANDLER_FOUND,
    HANDLER_FRAME,
    INSTALL_CONTEXT,
    NO_REASON,
    NORMAL_STOP,
    SEARCH_PHASE,
};
use crate::arch::{Context, RA, SP};
use crate::cfi::{spec_unwind_info, CfaRule, RegisterRule};
use crate::eh_frame::Fde;
use crate::encoding::PointerBases;
use crate::find_fde::{spec_global_find, BaseAddresses, GlobalFinder};
use crate::frame::{spec_apply_row, Frame};
use crate::mem::Memory;
use vstd::prelude::*;

verus! {

/// What a personality routine does, as data: one reason code per kind
/// of invocation, and the register writes it makes before asking to
/// install.  A routine at `addr` is attached to frames whose CIE
/// names that address.
#[derive(Clone, Copy, PartialEq, Eq, Debug)]
pub struct PersonalityScript {
    /// The routine's address, as the CIE's personality pointer
    /// resolves to it.
    pub addr: u64,
    /// Returned when called with `SEARCH_PHASE`.
    pub search: UnwindReasonCode,
    /// Returned when called with `CLEANUP_PHASE` and no
    /// `HANDLER_FRAME`.
    pub cleanup: UnwindReasonCode,
    /// Returned when called with `HANDLER_FRAME` set.
    pub handler: UnwindReasonCode,
    /// What the routine stores through the context accessors before
    /// returning `INSTALL_CONTEXT`: up to three register writes —
    /// typically the exception argument registers and, through the
    /// instruction pointer, the landing pad — applied to the register
    /// file being installed.  The stack pointer names the frame and
    /// cannot be written through this channel.
    pub install_edits: [Option<(u16, u64)>; 3],
}

/// One register write of an installing personality, applied to the
/// file being installed: out-of-range registers and the stack pointer
/// are left alone.
pub open spec fn spec_apply_edit(ctx: Seq<u64>, e: Option<(u16, u64)>) -> Seq<u64> {
    match e {
        None => ctx,
        Some(p) => if p.0 < crate::arch::NUM_REGS && p.0 != SP {
            ctx.update(p.0 as int, p.1)
        } else {
            ctx
        },
    }
}

/// The register writes of an installing personality, in order.
pub open spec fn spec_apply_edits(ctx: Seq<u64>, edits: [Option<(u16, u64)>; 3]) -> Seq<u64> {
    spec_apply_edit(spec_apply_edit(spec_apply_edit(ctx, edits@[0]), edits@[1]), edits@[2])
}

/// Exec twin of [`spec_apply_edits`].
fn apply_edits(ctx: &Context, edits: &[Option<(u16, u64)>; 3]) -> (r: Context)
    ensures
        r@ == spec_apply_edits(ctx@, *edits),
{
    let mut out = *ctx;
    let mut i: usize = 0;
    while i < 3
        invariant
            i <= 3,
            out@ == (if i == 0 {
                ctx@
            } else if i == 1 {
                spec_apply_edit(ctx@, edits@[0])
            } else if i == 2 {
                spec_apply_edit(spec_apply_edit(ctx@, edits@[0]), edits@[1])
            } else {
                spec_apply_edits(ctx@, *edits)
            }),
        decreases 3 - i,
    {
        match edits[i] {
            None => (),
            Some((reg, value)) => {
                if reg < crate::arch::NUM_REGS as u16 && reg != SP {
                    out.set(reg, value);
                }
            },
        }
        i = i + 1;
    }
    out
}

/// The edit channel never moves the stack pointer: the installed
/// file's stack pointer is the claimed frame's.
pub proof fn lemma_apply_edits_keep_sp(ctx: Seq<u64>, edits: [Option<(u16, u64)>; 3])
    requires
        ctx.len() == crate::arch::NUM_REGS,
    ensures
        spec_apply_edits(ctx, edits).len() == ctx.len(),
        spec_apply_edits(ctx, edits)[SP as int] == ctx[SP as int],
{
}

/// What a stop function returns, as data: `NO_REASON` on every call
/// except the one whose index equals `fail_at`.
#[derive(Clone, Copy, PartialEq, Eq, Structural, Debug)]
pub struct StopScript {
    /// The index of the call, counting from zero, on which the
    /// function returns `NORMAL_STOP` instead of `NO_REASON`.
    pub fail_at: Option<u64>,
}

/// The exception header.  The two private words carry the protocol's
/// state across `_Unwind_RaiseException`, `_Unwind_Resume` and
/// `_Unwind_Resume_or_Rethrow`: a stop script in the first marks a
/// forced unwind, and the second holds the handler's CFA for a normal
/// raise or the stop argument for a forced one.
#[derive(Clone, Copy, PartialEq, Eq, Structural, Debug)]
pub struct UnwindException {
    /// The originating language's vendor tag.
    pub exception_class: u64,
    /// The cleanup routine a foreign runtime must call when it
    /// discards the exception, as data.
    pub exception_cleanup: Option<u64>,
    /// Protocol state, not for language runtimes: the stop function of
    /// a forced unwind.
    pub private_1: Option<StopScript>,
    /// Protocol state, not for language runtimes: the handler CFA or
    /// the stop argument.
    pub private_2: u64,
}

impl UnwindException {
    /// A fresh exception with idle protocol state.
    pub fn new(exception_class: u64, exception_cleanup: Option<u64>) -> (r: UnwindException)
        ensures
            r.exception_class == exception_class,
            r.exception_cleanup == exception_cleanup,
            r.private_1 is None,
            r.private_2 == 0,
    {
        UnwindException { exception_class, exception_cleanup, private_1: None, private_2: 0 }
    }
}

/// Everything the unwinder reads while it walks: the FDE finder, the
/// readable memory, and the personality routines as scripts.
#[derive(PartialEq, Eq, Debug)]
pub struct Process {
    /// Locates the FDE covering a program counter.
    pub finder: GlobalFinder,
    /// The readable address space: stacks, indirect pointers.
    pub memory: Memory,
    /// The personality routines, by address.
    pub personalities: Vec<PersonalityScript>,
}

/// One invocation of a personality routine, as the machine recorded
/// it.
#[derive(Clone, Copy, PartialEq, Eq, Structural, Debug)]
pub struct PersonalityCall {
    /// The frame's function start address.
    pub initial_address: u64,
    /// The frame's stack pointer at the time of the call.
    pub sp: u64,
    /// The action flags handed to the routine.
    pub actions: UnwindAction,
    /// What the routine returned.
    pub result: UnwindReasonCode,
}

/// One invocation of a forced-unwind stop function.
#[derive(Clone, Copy, PartialEq, Eq, Structural, Debug)]
pub struct StopCall {
    /// The action flags handed to the function.
    pub actions: UnwindAction,
    /// What the function returned.
    pub result: UnwindReasonCode,
}

/// What an unwinding entry point did: the reason code it would return,
/// the register file `restore_context` would install, and the calls it
/// made.
#[derive(PartialEq, Eq, Debug)]
pub struct RaiseOutcome {
    /// The reason code; `INSTALL_CONTEXT` means control would
    /// transfer.
    pub code: UnwindReasonCode,
    /// The register file to install, when the code is
    /// `INSTALL_CONTEXT`.
    pub install: Option<Context>,
    /// The personality invocations, in order.
    pub personality_calls: Vec<PersonalityCall>,
    /// The stop-function invocations of a forced unwind, in order.
    pub stop_calls: Vec<StopCall>,
}

/// One frame of the walk, at the ghost level: the FDE, its bases and
/// section, and the decoded row.
pub struct FrameView {
    /// The FDE covering the frame's counter.
    pub fde: Fde,
    /// The bases its pointers were decoded with.
    pub bases: BaseAddresses,
    /// The section's address and bytes.
    pub section: (u64, Seq<u8>),
    /// The row's CFA rule.
    pub cfa: CfaRule,
    /// The row's register rules.
    pub regs: Seq<Option<RegisterRule>>,
}

/// What building the next frame yields.
pub enum FrameStep {
    /// End of stack: the return address is zero or no FDE covers it.
    End,
    /// The unwind tables are malformed.
    Fatal,
    /// The frame, decoded.
    Next(FrameView),
}

/// How phase 1 ended.
#[derive(Clone, Copy, PartialEq, Eq, Structural, Debug)]
pub enum Phase1End {
    /// A personality claimed the frame whose CFA is carried here.
    Found(u64),
    /// The stack ended without a handler.
    End,
    /// A malformed table or an unexpected personality result.
    Fatal,
    /// The walk did not finish within the given fuel.
    Out,
}

/// How phase 2 ended.
pub enum Phase2End {
    /// A personality asked to install this register file.
    Install(Seq<u64>),
    /// A malformed table, an exhausted stack, or an unexpected result.
    Fatal,
    /// The walk did not finish within the given fuel.
    Out,
}

/// How a forced unwind ended.
pub enum ForceEnd {
    /// A personality asked to install this register file.
    Install(Seq<u64>),
    /// The stack ended; the stop function saw `END_OF_STACK`.
    End,
    /// A malformed table, a stopping stop function, or an unexpected
    /// personality result.
    Fatal,
    /// The walk did not finish within the given fuel.
    Out,
}

/// The first script whose address is `addr`.
pub open spec fn spec_find_script(ss: Seq<PersonalityScript>, addr: u64) -> Option<
    PersonalityScript,
>
    decreases ss.len(),
{
    if ss.len() == 0 {
        None
    } else if ss[0].addr == addr {
        Some(ss[0])
    } else {
        spec_find_script(ss.drop_first(), addr)
    }
}

/// The personality routine address of an FDE, dereferenced through
/// memory when the pointer is indirect; `None` when the CIE names none
/// or the pointer is unreadable.
pub open spec fn spec_personality_addr(fde: Fde, mem: &Memory) -> Option<u64> {
    match fde.cie.aug.personality {
        None => None,
        Some(p) => match crate::util::spec_deref_pointer(p, mem) {
            Some(v) => Some(v as u64),
            None => None,
        },
    }
}

/// Builds the next frame for `ctx`, at the ghost level: the finder's
/// answer for the call-site counter and the row decoded from it.
pub open spec fn spec_frame_step(p: &Process, ctx: Seq<u64>) -> FrameStep {
    if ctx[RA as int] == 0 {
        FrameStep::End
    } else {
        let pc = ctx[RA as int] - 1;
        match spec_global_find(&p.finder, pc, &p.memory) {
            None => FrameStep::End,
            Some((fde, bases, sec)) => match spec_unwind_info(
                sec.1,
                fde.cie,
                fde,
                pc,
                PointerBases { section: sec.0, text: bases.text, data: bases.got, func: None },
            ) {
                None => FrameStep::Fatal,
                Some((cfa, regs)) => FrameStep::Next(FrameView { fde, bases, section: sec, cfa, regs }),
            },
        }
    }
}

/// The caller's register file under a ghost frame.
pub open spec fn spec_unwind_frame(fv: FrameView, ctx: Seq<u64>, mem: &Memory) -> Option<Seq<u64>> {
    spec_apply_row(fv.section.1, fv.cfa, fv.regs, ctx, mem)
}

/// Phase 1, the search: walks frames from `ctx`, calling each
/// personality with `SEARCH_PHASE`, until one claims the frame, the
/// stack ends, or something fails.  Yields the end and the calls made.
pub open spec fn spec_phase1(p: &Process, ctx: Seq<u64>, fuel: nat) -> (Phase1End, Seq<
    PersonalityCall,
>)
    decreases fuel,
{
    if fuel == 0 {
        (Phase1End::Out, Seq::empty())
    } else {
        match spec_frame_step(p, ctx) {
            FrameStep::End => (Phase1End::End, Seq::empty()),
            FrameStep::Fatal => (Phase1End::Fatal, Seq::empty()),
            FrameStep::Next(fv) => match spec_personality_addr(fv.fde, &p.memory) {
                None => match spec_unwind_frame(fv, ctx, &p.memory) {
                    None => (Phase1End::Fatal, Seq::empty()),
                    Some(c2) => spec_phase1(p, c2, (fuel - 1) as nat),
                },
                Some(a) => match spec_find_script(p.personalities@, a) {
                    None => (Phase1End::Fatal, Seq::empty()),
                    Some(sc) => {
                        let call = PersonalityCall {
                            initial_address: fv.fde.initial_address,
                            sp: ctx[SP as int],
                            actions: UnwindAction(SEARCH_PHASE),
                            result: sc.search,
                        };
                        if sc.search.0 == CONTINUE_UNWIND {
                            match spec_unwind_frame(fv, ctx, &p.memory) {
                                None => (Phase1End::Fatal, seq![call]),
                                Some(c2) => {
                                    let rest = spec_phase1(p, c2, (fuel - 1) as nat);
                                    (rest.0, seq![call] + rest.1)
                                },
                            }
                        } else if sc.search.0 == HANDLER_FOUND {
                            (Phase1End::Found(ctx[SP as int]), seq![call])
                        } else {
                            (Phase1End::Fatal, seq![call])
                        }
                    },
                },
            },
        }
    }
}

/// Phase 2 of a normal raise, the cleanup: walks frames from `ctx`,
/// calling each personality with `CLEANUP_PHASE`, and with
/// `HANDLER_FRAME` exactly where the frame's stack pointer equals the
/// recorded handler CFA, until one installs a context or something
/// fails.  An exhausted stack is fatal here: phase 1 found a handler.
pub open spec fn spec_phase2(p: &Process, ctx: Seq<u64>, handler_cfa: u64, fuel: nat) -> (
    Phase2End,
    Seq<PersonalityCall>,
)
    decreases fuel,
{
    if fuel == 0 {
        (Phase2End::Out, Seq::empty())
    } else {
        match spec_frame_step(p, ctx) {
            FrameStep::End => (Phase2End::Fatal, Seq::empty()),
            FrameStep::Fatal => (Phase2End::Fatal, Seq::empty()),
            FrameStep::Next(fv) => match spec_personality_addr(fv.fde, &p.memory) {
                None => match spec_unwind_frame(fv, ctx, &p.memory) {
                    None => (Phase2End::Fatal, Seq::empty()),
                    Some(c2) => spec_phase2(p, c2, handler_cfa, (fuel - 1) as nat),
                },
                Some(a) => match spec_find_script(p.personalities@, a) {
                    None => (Phase2End::Fatal, Seq::empty()),
                    Some(sc) => {
                        let is_handler = ctx[SP as int] == handler_cfa;
                        let result = if is_handler {
                            sc.handler
                        } else {
                            sc.cleanup
                        };
                        let call = PersonalityCall {
                            initial_address: fv.fde.initial_address,
                            sp: ctx[SP as int],
                            actions: UnwindAction(
                                CLEANUP_PHASE | if is_handler {
                                    HANDLER_FRAME
                                } else {
                                    0
                                },
                            ),
                            result,
                        };
                        if result.0 == CONTINUE_UNWIND {
                            match spec_unwind_frame(fv, ctx, &p.memory) {
                                None => (Phase2End::Fatal, seq![call]),
                                Some(c2) => {
                                    let rest = spec_phase2(p, c2, handler_cfa, (fuel - 1) as nat);
                                    (rest.0, seq![call] + rest.1)
                                },
                            }
                        } else if result.0 == INSTALL_CONTEXT {
                            (Phase2End::Install(spec_apply_edits(ctx, sc.install_edits)), seq![call])
                        } else {
                            (Phase2End::Fatal, seq![call])
                        }
                    },
                },
            },
        }
    }
}

/// A forced unwind: before each frame's personality the stop function
/// is consulted, with `FORCE_UNWIND`, and with `END_OF_STACK` added on
/// the final call where no frame is left.  A stop result other than
/// `NO_REASON` is fatal; personalities run with `FORCE_UNWIND |
/// CLEANUP_PHASE`.
pub open spec fn spec_force(
    p: &Process,
    ctx: Seq<u64>,
    stop: StopScript,
    callidx: u64,
    fuel: nat,
) -> (ForceEnd, Seq<PersonalityCall>, Seq<StopCall>)
    decreases fuel,
{
    if fuel == 0 {
        (ForceEnd::Out, Seq::empty(), Seq::empty())
    } else {
        match spec_frame_step(p, ctx) {
            FrameStep::Fatal => (ForceEnd::Fatal, Seq::empty(), Seq::empty()),
            step => {
                let at_end = step is End;
                let actions = UnwindAction(
                    FORCE_UNWIND | if at_end {
                        END_OF_STACK_ACTION
                    } else {
                        0
                    },
                );
                let result = if stop.fail_at == Some(callidx) {
                    UnwindReasonCode(NORMAL_STOP)
                } else {
                    UnwindReasonCode(NO_REASON)
                };
                let scall = StopCall { actions, result };
                if result.0 != NO_REASON {
                    (ForceEnd::Fatal, Seq::empty(), seq![scall])
                } else {
                    match step {
                        FrameStep::End => (ForceEnd::End, Seq::empty(), seq![scall]),
                        FrameStep::Fatal => (ForceEnd::Fatal, Seq::empty(), Seq::empty()),
                        FrameStep::Next(fv) => match spec_personality_addr(fv.fde, &p.memory) {
                            None => match spec_unwind_frame(fv, ctx, &p.memory) {
                                None => (ForceEnd::Fatal, Seq::empty(), seq![scall]),
                                Some(c2) => {
                                    let rest = spec_force(
                                        p,
                                        c2,
                                        stop,
                                        callidx.wrapping_add(1),
                                        (fuel - 1) as nat,
                                    );
                                    (rest.0, rest.1, seq![scall] + rest.2)
                                },
                            },
                            Some(a) => match spec_find_script(p.personalities@, a) {
                                None => (ForceEnd::Fatal, Seq::empty(), seq![scall]),
                                Some(sc) => {
                                    let call = PersonalityCall {
                                        initial_address: fv.fde.initial_address,
                                        sp: ctx[SP as int],
                                        actions: UnwindAction(FORCE_UNWIND | CLEANUP_PHASE),
                                        result: sc.cleanup,
                                    };
                                    if sc.cleanup.0 == CONTINUE_UNWIND {
                                        match spec_unwind_frame(fv, ctx, &p.memory) {
                                            None => (ForceEnd::Fatal, seq![call], seq![scall]),
                                            Some(c2) => {
                                                let rest = spec_force(
                                                    p,
                                                    c2,
                                                    stop,
                                                    callidx.wrapping_add(1),
                                                    (fuel - 1) as nat,
                                                );
                                                (rest.0, seq![call] + rest.1, seq![scall] + rest.2)
                                            },
                                        }
                                    } else if sc.cleanup.0 == INSTALL_CONTEXT {
                                        (
                                            ForceEnd::Install(spec_apply_edits(ctx, sc.install_edits)),
                                            seq![call],
                                            seq![scall],
                                        )
                                    } else {
                                        (ForceEnd::Fatal, seq![call], seq![scall])
                                    }
                                },
                            },
                        },
                    }
                }
            },
        }
    }
}

/// Finds the first script registered for `addr`.
fn find_script(ss: &Vec<PersonalityScript>, addr: u64) -> (r: Option<PersonalityScript>)
    ensures
        r == spec_find_script(ss@, addr),
{
    let mut i: usize = 0;
    proof {
        assert(ss@.skip(0) =~= ss@);
    }
    while i < ss.len()
        invariant
            i <= ss@.len(),
            spec_find_script(ss@, addr) == spec_find_script(ss@.skip(i as int), addr),
        decreases ss@.len() - i,
    {
        proof {
            assert(ss@.skip(i as int)[0] == ss@[i as int]);
            assert(ss@.skip(i as int).drop_first() =~= ss@.skip(i + 1));
        }
        if ss[i].addr == addr {
            return Some(ss[i]);
        }
        i = i + 1;
    }
    proof {
        assert(ss@.skip(ss@.len() as int).len() == 0);
    }
    None
}

/// The ghost frame the machine's specification builds for an exec
/// frame.
pub open spec fn spec_view_of_frame(frame: &Frame) -> FrameView {
    FrameView {
        fde: frame.fde_result.fde,
        bases: frame.fde_result.bases,
        section: frame.fde_result.eh_frame@,
        cfa: frame.row.cfa,
        regs: frame.row.regs@,
    }
}

/// Phase 1 of `_Unwind_RaiseException`: the search walk.
fn phase1_walk(p: &Process, ctx0: &Context) -> (r: (Phase1End, Vec<PersonalityCall>))
    requires
        p.memory.wf(),
        spec_phase1_bounded(p, ctx0@),
    ensures
        !(r.0 is Out),
        exists|n: nat| spec_phase1(p, ctx0@, n) == (r.0, r.1@),
{
    let ghost n0 = choose|n: nat| spec_phase1(p, ctx0@, n).0 != Phase1End::Out;
    let mut ctx = *ctx0;
    let mut calls: Vec<PersonalityCall> = Vec::new();
    let ghost mut fuel = n0;
    proof {
        assert(calls@ + spec_phase1(p, ctx0@, n0).1 =~= spec_phase1(p, ctx0@, n0).1);
    }
    loop
        invariant
            p.memory.wf(),
            spec_phase1(p, ctx0@, n0).0 != Phase1End::Out,
            spec_phase1(p, ctx@, fuel).0 == spec_phase1(p, ctx0@, n0).0,
            spec_phase1(p, ctx0@, n0).1 == calls@ + spec_phase1(p, ctx@, fuel).1,
        decreases fuel,
    {
        proof {
            if fuel == 0 {
                assert(spec_phase1(p, ctx@, fuel).0 == Phase1End::Out);
            }
        }
        let frame = match Frame::from_context(&ctx, &p.finder, &p.memory) {
            Ok(Some(frame)) => frame,
            Ok(None) => {
                proof {
                    assert(spec_frame_step(p, ctx@) is End);
                    assert(calls@ + spec_phase1(p, ctx@, fuel).1 =~= calls@);
                }
                return (Phase1End::End, calls);
            },
            Err(_) => {
                proof {
                    assert(spec_frame_step(p, ctx@) is Fatal);
                    assert(calls@ + spec_phase1(p, ctx@, fuel).1 =~= calls@);
                }
                return (Phase1End::Fatal, calls);
            },
        };
        let ghost fv = spec_view_of_frame(&frame);
        proof {
            assert(spec_frame_step(p, ctx@) == FrameStep::Next(fv));
        }
        match frame.personality(&p.memory) {
            None => {
                match frame.unwind(&ctx, &p.memory) {
                    Ok(c2) => {
                        proof {
                            assert(spec_unwind_frame(fv, ctx@, &p.memory) == Some(c2@));
                            assert(spec_phase1(p, ctx@, fuel) == spec_phase1(
                                p,
                                c2@,
                                (fuel - 1) as nat,
                            ));
                            fuel = (fuel - 1) as nat;
                        }
                        ctx = c2;
                    },
                    Err(_) => {
                        proof {
                            assert(spec_unwind_frame(fv, ctx@, &p.memory) is None);
                            assert(calls@ + spec_phase1(p, ctx@, fuel).1 =~= calls@);
                        }
                        return (Phase1End::Fatal, calls);
                    },
                }
            },
            Some(a) => {
                let sc = match find_script(&p.personalities, a) {
                    Some(sc) => sc,
                    None => {
                        proof {
                            assert(calls@ + spec_phase1(p, ctx@, fuel).1 =~= calls@);
                        }
                        return (Phase1End::Fatal, calls);
                    },
                };
                let call = PersonalityCall {
                    initial_address: frame.initial_address(),
                    sp: ctx.sp(),
                    actions: UnwindAction(SEARCH_PHASE),
                    result: sc.search,
                };
                let ghost calls_before = calls@;
                calls.push(call);
                proof {
                    assert(calls@ =~= calls_before + seq![call]);
                }
                if sc.search.0 == CONTINUE_UNWIND {
                    match frame.unwind(&ctx, &p.memory) {
                        Ok(c2) => {
                            proof {
                                assert(spec_unwind_frame(fv, ctx@, &p.memory) == Some(c2@));
                                let rest = spec_phase1(p, c2@, (fuel - 1) as nat);
                                assert(spec_phase1(p, ctx@, fuel) == (rest.0, seq![call] + rest.1));
                                assert(calls_before + (seq![call] + rest.1) =~= calls@ + rest.1);
                                fuel = (fuel - 1) as nat;
                            }
                            ctx = c2;
                        },
                        Err(_) => {
                            proof {
                                assert(spec_unwind_frame(fv, ctx@, &p.memory) is None);
                                assert(spec_phase1(p, ctx@, fuel).1 =~= seq![call]);
                                assert(calls_before + seq![call] =~= calls@);
                            }
                            return (Phase1End::Fatal, calls);
                        },
                    }
                } else if sc.search.0 == HANDLER_FOUND {
                    proof {
                        assert(spec_phase1(p, ctx@, fuel).1 =~= seq![call]);
                        assert(calls_before + seq![call] =~= calls@);
                    }
                    return (Phase1End::Found(ctx.sp()), calls);
                } else {
                    proof {
                        assert(spec_phase1(p, ctx@, fuel).1 =~= seq![call]);
                        assert(calls_before + seq![call] =~= calls@);
                    }
                    return (Phase1End::Fatal, calls);
                }
            },
        }
    }
}

/// Phase 2 of a normal raise: the cleanup walk.  Yields the register
/// file to install, or `None` on a fatal end, with the calls made.
fn phase2_walk(p: &Process, ctx0: &Context, handler_cfa: u64) -> (r: (
    Option<Context>,
    Vec<PersonalityCall>,
))
    requires
        p.memory.wf(),
        spec_phase2_bounded(p, ctx0@, handler_cfa),
    ensures
        exists|m: nat|
            {
                let s = #[trigger] spec_phase2(p, ctx0@, handler_cfa, m);
                s.1 == r.1@ && (match r.0 {
                    Some(c) => s.0 == Phase2End::Install(c@),
                    None => s.0 is Fatal,
                })
            },
{
    let ghost n0 = choose|n: nat| !(spec_phase2(p, ctx0@, handler_cfa, n).0 is Out);
    let mut ctx = *ctx0;
    let mut calls: Vec<PersonalityCall> = Vec::new();
    let ghost mut fuel = n0;
    proof {
        assert(calls@ + spec_phase2(p, ctx0@, handler_cfa, n0).1 =~= spec_phase2(
            p,
            ctx0@,
            handler_cfa,
            n0,
        ).1);
    }
    loop
        invariant
            p.memory.wf(),
            !(spec_phase2(p, ctx0@, handler_cfa, n0).0 is Out),
            spec_phase2(p, ctx@, handler_cfa, fuel).0 == spec_phase2(p, ctx0@, handler_cfa, n0).0,
            spec_phase2(p, ctx0@, handler_cfa, n0).1 == calls@ + spec_phase2(
                p,
                ctx@,
                handler_cfa,
                fuel,
            ).1,
        decreases fuel,
    {
        proof {
            if fuel == 0 {
                assert(spec_phase2(p, ctx@, handler_cfa, fuel).0 is Out);
            }
        }
        let frame = match Frame::from_context(&ctx, &p.finder, &p.memory) {
            Ok(Some(frame)) => frame,
            Ok(None) => {
                proof {
                    assert(spec_frame_step(p, ctx@) is End);
                    assert(calls@ + spec_phase2(p, ctx@, handler_cfa, fuel).1 =~= calls@);
                }
                return (None, calls);
            },
            Err(_) => {
                proof {
                    assert(spec_frame_step(p, ctx@) is Fatal);
                    assert(calls@ + spec_phase2(p, ctx@, handler_cfa, fuel).1 =~= calls@);
                }
                return (None, calls);
            },
        };
        let ghost fv = spec_view_of_frame(&frame);
        proof {
            assert(spec_frame_step(p, ctx@) == FrameStep::Next(fv));
        }
        match frame.personality(&p.memory) {
            None => {
                match frame.unwind(&ctx, &p.memory) {
                    Ok(c2) => {
                        proof {
                            assert(spec_unwind_frame(fv, ctx@, &p.memory) == Some(c2@));
                            assert(spec_phase2(p, ctx@, handler_cfa, fuel) == spec_phase2(
                                p,
                                c2@,
                                handler_cfa,
                                (fuel - 1) as nat,
                            ));
                            fuel = (fuel - 1) as nat;
                        }
                        ctx = c2;
                    },
                    Err(_) => {
                        proof {
                            assert(spec_unwind_frame(fv, ctx@, &p.memory) is None);
                            assert(calls@ + spec_phase2(p, ctx@, handler_cfa, fuel).1 =~= calls@);
                        }
                        return (None, calls);
                    },
                }
            },
            Some(a) => {
                let sc = match find_script(&p.personalities, a) {
                    Some(sc) => sc,
                    None => {
                        proof {
                            assert(calls@ + spec_phase2(p, ctx@, handler_cfa, fuel).1 =~= calls@);
                        }
                        return (None, calls);
                    },
                };
                let is_handler = ctx.sp() == handler_cfa;
                let result = if is_handler {
                    sc.handler
                } else {
                    sc.cleanup
                };
                let actions = UnwindAction(CLEANUP_PHASE).bitor(
                    if is_handler {
                        UnwindAction(HANDLER_FRAME)
                    } else {
                        UnwindAction::empty()
                    },
                );
                let call = PersonalityCall {
                    initial_address: frame.initial_address(),
                    sp: ctx.sp(),
                    actions,
                    result,
                };
                let ghost calls_before = calls@;
                calls.push(call);
                proof {
                    assert(calls@ =~= calls_before + seq![call]);
                }
                if result.0 == CONTINUE_UNWIND {
                    match frame.unwind(&ctx, &p.memory) {
                        Ok(c2) => {
                            proof {
                                assert(spec_unwind_frame(fv, ctx@, &p.memory) == Some(c2@));
                                let rest = spec_phase2(p, c2@, handler_cfa, (fuel - 1) as nat);
                                assert(spec_phase2(p, ctx@, handler_cfa, fuel) == (
                                    rest.0,
                                    seq![call] + rest.1,
                                ));
                                assert(calls_before + (seq![call] + rest.1) =~= calls@ + rest.1);
                                fuel = (fuel - 1) as nat;
                            }
                            ctx = c2;
                        },
                        Err(_) => {
                            proof {
                                assert(spec_unwind_frame(fv, ctx@, &p.memory) is None);
                                assert(spec_phase2(p, ctx@, handler_cfa, fuel).1 =~= seq![call]);
                                assert(calls_before + seq![call] =~= calls@);
                            }
                            return (None, calls);
                        },
                    }
                } else if result.0 == INSTALL_CONTEXT {
                    let installed = apply_edits(&ctx, &sc.install_edits);
                    proof {
                        assert(spec_phase2(p, ctx@, handler_cfa, fuel).1 =~= seq![call]);
                        assert(calls_before + seq![call] =~= calls@);
                        assert(spec_phase2(p, ctx@, handler_cfa, fuel).0 == Phase2End::Install(
                            installed@,
                        ));
                    }
                    return (Some(installed), calls);
                } else {
                    proof {
                        assert(spec_phase2(p, ctx@, handler_cfa, fuel).1 =~= seq![call]);
                        assert(calls_before + seq![call] =~= calls@);
                    }
                    return (None, calls);
                }
            },
        }
    }
}

/// What a forced-unwind walk returns at the exec level.
pub enum ForceExec {
    /// Install this register file.
    Install(Context),
    /// The stack ended.
    End,
    /// A fatal end.
    Fatal,
}

/// The walk of a forced unwind: stop function, then personality, per
/// frame.
#[verifier::rlimit(100)]
fn force_walk(p: &Process, ctx0: &Context, stop: StopScript, callidx0: u64) -> (r: (
    ForceExec,
    Vec<PersonalityCall>,
    Vec<StopCall>,
))
    requires
        p.memory.wf(),
        spec_force_bounded(p, ctx0@, stop, callidx0),
    ensures
        exists|n: nat|
            {
                let s = #[trigger] spec_force(p, ctx0@, stop, callidx0, n);
                s.1 == r.1@ && s.2 == r.2@ && (match r.0 {
                    ForceExec::Install(c) => s.0 == ForceEnd::Install(c@),
                    ForceExec::End => s.0 is End,
                    ForceExec::Fatal => s.0 is Fatal,
                })
            },
{
    let ghost n0 = choose|n: nat| !(spec_force(p, ctx0@, stop, callidx0, n).0 is Out);
    let mut ctx = *ctx0;
    let mut callidx = callidx0;
    let mut pcalls: Vec<PersonalityCall> = Vec::new();
    let mut scalls: Vec<StopCall> = Vec::new();
    let ghost mut fuel = n0;
    proof {
        assert(pcalls@ + spec_force(p, ctx0@, stop, callidx0, n0).1 =~= spec_force(
            p,
            ctx0@,
            stop,
            callidx0,
            n0,
        ).1);
        assert(scalls@ + spec_force(p, ctx0@, stop, callidx0, n0).2 =~= spec_force(
            p,
            ctx0@,
            stop,
            callidx0,
            n0,
        ).2);
    }
    loop
        invariant
            p.memory.wf(),
            !(spec_force(p, ctx0@, stop, callidx0, n0).0 is Out),
            spec_force(p, ctx@, stop, callidx, fuel).0 == spec_force(
                p,
                ctx0@,
                stop,
                callidx0,
                n0,
            ).0,
            spec_force(p, ctx0@, stop, callidx0, n0).1 == pcalls@ + spec_force(
                p,
                ctx@,
                stop,
                callidx,
                fuel,
            ).1,
            spec_force(p, ctx0@, stop, callidx0, n0).2 == scalls@ + spec_force(
                p,
                ctx@,
                stop,
                callidx,
                fuel,
            ).2,
        decreases fuel,
    {
        proof {
            if fuel == 0 {
                assert(spec_force(p, ctx@, stop, callidx, fuel).0 is Out);
            }
        }
        let ghost spec_here = spec_force(p, ctx@, stop, callidx, fuel);
        let frame_or_end: Option<Frame> = match Frame::from_context(&ctx, &p.finder, &p.memory) {
            Ok(v) => v,
            Err(_) => {
                proof {
                    assert(spec_frame_step(p, ctx@) is Fatal);
                    assert(pcalls@ + spec_here.1 =~= pcalls@);
                    assert(scalls@ + spec_here.2 =~= scalls@);
                }
                return (ForceExec::Fatal, pcalls, scalls);
            },
        };
        let at_end = frame_or_end.is_none();
        let actions = UnwindAction(FORCE_UNWIND).bitor(
            if at_end {
                UnwindAction(END_OF_STACK_ACTION)
            } else {
                UnwindAction::empty()
            },
        );
        let failed = match stop.fail_at {
            Some(k) => k == callidx,
            None => false,
        };
        let result = if failed {
            UnwindReasonCode(NORMAL_STOP)
        } else {
            UnwindReasonCode(NO_REASON)
        };
        let scall = StopCall { actions, result };
        let ghost scalls_before = scalls@;
        scalls.push(scall);
        proof {
            assert(scalls@ =~= scalls_before + seq![scall]);
        }
        if failed {
            proof {
                assert(spec_here.2 =~= seq![scall]);
                assert(pcalls@ + spec_here.1 =~= pcalls@);
            }
            return (ForceExec::Fatal, pcalls, scalls);
        }
        let frame = match frame_or_end {
            Some(frame) => frame,
            None => {
                proof {
                    assert(spec_frame_step(p, ctx@) is End);
                    assert(spec_here.2 =~= seq![scall]);
                    assert(pcalls@ + spec_here.1 =~= pcalls@);
                }
                return (ForceExec::End, pcalls, scalls);
            },
        };
        let ghost fv = spec_view_of_frame(&frame);
        proof {
            assert(spec_frame_step(p, ctx@) == FrameStep::Next(fv));
        }
        match frame.personality(&p.memory) {
            None => {
                match frame.unwind(&ctx, &p.memory) {
                    Ok(c2) => {
                        proof {
                            assert(spec_unwind_frame(fv, ctx@, &p.memory) == Some(c2@));
                            let rest = spec_force(
                                p,
                                c2@,
                                stop,
                                callidx.wrapping_add(1),
                                (fuel - 1) as nat,
                            );
                            assert(spec_here == (rest.0, rest.1, seq![scall] + rest.2));
                            assert(scalls_before + (seq![scall] + rest.2) =~= scalls@ + rest.2);
                            fuel = (fuel - 1) as nat;
                        }
                        ctx = c2;
                        callidx = callidx.wrapping_add(1);
                    },
                    Err(_) => {
                        proof {
                            assert(spec_unwind_frame(fv, ctx@, &p.memory) is None);
                            assert(spec_here.2 =~= seq![scall]);
                            assert(pcalls@ + spec_here.1 =~= pcalls@);
                        }
                        return (ForceExec::Fatal, pcalls, scalls);
                    },
                }
            },
            Some(a) => {
                let sc = match find_script(&p.personalities, a) {
                    Some(sc) => sc,
                    None => {
                        proof {
                            assert(spec_here.2 =~= seq![scall]);
                            assert(pcalls@ + spec_here.1 =~= pcalls@);
                        }
                        return (ForceExec::Fatal, pcalls, scalls);
                    },
                };
                let call = PersonalityCall {
                    initial_address: frame.initial_address(),
                    sp: ctx.sp(),
                    actions: UnwindAction(FORCE_UNWIND).bitor(UnwindAction(CLEANUP_PHASE)),
                    result: sc.cleanup,
                };
                let ghost pcalls_before = pcalls@;
                pcalls.push(call);
                proof {
                    assert(pcalls@ =~= pcalls_before + seq![call]);
                }
                if sc.cleanup.0 == CONTINUE_UNWIND {
                    match frame.unwind(&ctx, &p.memory) {
                        Ok(c2) => {
                            proof {
                                assert(spec_unwind_frame(fv, ctx@, &p.memory) == Some(c2@));
                                let rest = spec_force(
                                    p,
                                    c2@,
                                    stop,
                                    callidx.wrapping_add(1),
                                    (fuel - 1) as nat,
                                );
                                assert(spec_here == (
                                    rest.0,
                                    seq![call] + rest.1,
                                    seq![scall] + rest.2,
                                ));
                                assert(pcalls_before + (seq![call] + rest.1) =~= pcalls@ + rest.1);
                                assert(scalls_before + (seq![scall] + rest.2) =~= scalls@ + rest.2);
                                fuel = (fuel - 1) as nat;
                            }
                            ctx = c2;
                            callidx = callidx.wrapping_add(1);
                        },
                        Err(_) => {
                            proof {
                                assert(spec_unwind_frame(fv, ctx@, &p.memory) is None);
                                assert(spec_here.1 =~= seq![call]);
                                assert(spec_here.2 =~= seq![scall]);
                            }
                            return (ForceExec::Fatal, pcalls, scalls);
                        },
                    }
                } else if sc.cleanup.0 == INSTALL_CONTEXT {
                    let installed = apply_edits(&ctx, &sc.install_edits);
                    proof {
                        assert(spec_here.0 == ForceEnd::Install(installed@));
                        assert(spec_here.1 =~= seq![call]);
                        assert(spec_here.2 =~= seq![scall]);
                    }
                    return (ForceExec::Install(installed), pcalls, scalls);
                } else {
                    proof {
                        assert(spec_here.1 =~= seq![call]);
                        assert(spec_here.2 =~= seq![scall]);
                    }
                    return (ForceExec::Fatal, pcalls, scalls);
                }
            },
        }
    }
}

/// The walk from `ctx` settles within some fuel in phase 1.
pub open spec fn spec_phase1_bounded(p: &Process, ctx: Seq<u64>) -> bool {
    exists|n: nat| spec_phase1(p, ctx, n).0 != Phase1End::Out
}

/// The walk from `ctx` settles within some fuel in phase 2.
pub open spec fn spec_phase2_bounded(p: &Process, ctx: Seq<u64>, handler_cfa: u64) -> bool {
    exists|n: nat| !(spec_phase2(p, ctx, handler_cfa, n).0 is Out)
}

/// The forced walk from `ctx` settles within some fuel.
pub open spec fn spec_force_bounded(p: &Process, ctx: Seq<u64>, stop: StopScript, callidx: u64) -> bool {
    exists|n: nat| !(spec_force(p, ctx, stop, callidx, n).0 is Out)
}

/// The register file an outcome would install, as a ghost value.
pub open spec fn spec_install_view(o: &RaiseOutcome) -> Option<Seq<u64>> {
    match o.install {
        Some(c) => Some(c@),
        None => None,
    }
}

/// What `_Unwind_RaiseException` promises, at fuel `n`: the outcome
/// and the exception's new protocol state, as functions of the two
/// phase walks.
pub open spec fn spec_raise_matches(
    p: &Process,
    ctx: Seq<u64>,
    ex0: UnwindException,
    ex1: UnwindException,
    code: UnwindReasonCode,
    install: Option<Seq<u64>>,
    pcalls: Seq<PersonalityCall>,
    n: nat,
) -> bool {
    let r1 = spec_phase1(p, ctx, n);
    match r1.0 {
        Phase1End::End => code.0 == END_OF_STACK && install is None && pcalls == r1.1 && ex1
            == ex0,
        Phase1End::Fatal => code.0 == FATAL_PHASE1_ERROR && install is None && pcalls == r1.1
            && ex1 == ex0,
        Phase1End::Found(cfa) => ex1 == UnwindException {
            private_1: None,
            private_2: cfa,
            ..ex0
        } && exists|m: nat|
            {
                let r2 = #[trigger] spec_phase2(p, ctx, cfa, m);
                match r2.0 {
                    Phase2End::Install(c) => code.0 == INSTALL_CONTEXT && install == Some(c)
                        && pcalls == r1.1 + r2.1,
                    Phase2End::Fatal => code.0 == FATAL_PHASE2_ERROR && install is None && pcalls
                        == r1.1 + r2.1,
                    Phase2End::Out => false,
                }
            },
        Phase1End::Out => false,
    }
}

/// Raises an exception: searches for a handler in phase 1, records the
/// handler's CFA in the exception, and runs phase 2 up to it.
///
/// The reason code is `END_OF_STACK` when no personality claims a
/// frame, `FATAL_PHASE1_ERROR` or `FATAL_PHASE2_ERROR` when a table is
/// malformed or a personality answers outside the protocol, and
/// `INSTALL_CONTEXT`, with the register file to install, when the
/// handler is reached.
#[allow(non_snake_case)]
pub fn _Unwind_RaiseException(
    exception: &mut UnwindException,
    p: &Process,
    saved_ctx: &Context,
) -> (r: RaiseOutcome)
    requires
        p.memory.wf(),
        spec_phase1_bounded(p, saved_ctx@),
        forall|n: nat|
            (#[trigger] spec_phase1(p, saved_ctx@, n).0 matches Phase1End::Found(cfa)
                ==> spec_phase2_bounded(p, saved_ctx@, cfa)),
    ensures
        exists|n: nat|
            #[trigger] spec_raise_matches(
                p,
                saved_ctx@,
                *old(exception),
                *final(exception),
                r.code,
                spec_install_view(&r),
                r.personality_calls@,
                n,
            ),
        r.stop_calls@.len() == 0,
{
    let (end1, calls1) = phase1_walk(p, saved_ctx);
    let ghost n = choose|n: nat| spec_phase1(p, saved_ctx@, n) == (end1, calls1@);
    match end1 {
        Phase1End::End => {
            let out = RaiseOutcome {
                code: UnwindReasonCode(END_OF_STACK),
                install: None,
                personality_calls: calls1,
                stop_calls: Vec::new(),
            };
            proof {
                assert(spec_raise_matches(
                    p,
                    saved_ctx@,
                    *old(exception),
                    *exception,
                    out.code,
                    spec_install_view(&out),
                    out.personality_calls@,
                    n,
                ));
            }
            out
        },
        Phase1End::Fatal => {
            let out = RaiseOutcome {
                code: UnwindReasonCode(FATAL_PHASE1_ERROR),
                install: None,
                personality_calls: calls1,
                stop_calls: Vec::new(),
            };
            proof {
                assert(spec_raise_matches(
                    p,
                    saved_ctx@,
                    *old(exception),
                    *exception,
                    out.code,
                    spec_install_view(&out),
                    out.personality_calls@,
                    n,
                ));
            }
            out
        },
        Phase1End::Found(handler_cfa) => {
            exception.private_1 = None;
            exception.private_2 = handler_cfa;
            proof {
                assert(spec_phase1(p, saved_ctx@, n).0 == Phase1End::Found(handler_cfa));
            }
            let (installed, mut calls2) = phase2_walk(p, saved_ctx, handler_cfa);
            let ghost c2v = calls2@;
            let ghost m = choose|m: nat|
                {
                    let s = #[trigger] spec_phase2(p, saved_ctx@, handler_cfa, m);
                    s.1 == c2v && (match installed {
                        Some(c) => s.0 == Phase2End::Install(c@),
                        None => s.0 is Fatal,
                    })
                };
            let mut all = calls1;
            all.append(&mut calls2);
            proof {
                assert(all@ =~= calls1@ + c2v);
            }
            let out = match installed {
                Some(c) => RaiseOutcome {
                    code: UnwindReasonCode(INSTALL_CONTEXT),
                    install: Some(c),
                    personality_calls: all,
                    stop_calls: Vec::new(),
                },
                None => RaiseOutcome {
                    code: UnwindReasonCode(FATAL_PHASE2_ERROR),
                    install: None,
                    personality_calls: all,
                    stop_calls: Vec::new(),
                },
            };
            proof {
                let s = spec_phase2(p, saved_ctx@, handler_cfa, m);
                assert(match s.0 {
                    Phase2End::Install(c) => out.code.0 == INSTALL_CONTEXT && spec_install_view(
                        &out,
                    ) == Some(c) && out.personality_calls@ == spec_phase1(p, saved_ctx@, n).1
                        + s.1,
                    Phase2End::Fatal => out.code.0 == FATAL_PHASE2_ERROR && spec_install_view(
                        &out,
                    ) is None && out.personality_calls@ == spec_phase1(p, saved_ctx@, n).1 + s.1,
                    Phase2End::Out => false,
                });
                assert(spec_raise_matches(
                    p,
                    saved_ctx@,
                    *old(exception),
                    *exception,
                    out.code,
                    spec_install_view(&out),
                    out.personality_calls@,
                    n,
                ));
            }
            out
        },
        Phase1End::Out => {
            proof {
                assert(false);
            }
            RaiseOutcome {
                code: UnwindReasonCode(FATAL_PHASE1_ERROR),
                install: None,
                personality_calls: calls1,
                stop_calls: Vec::new(),
            }
        },
    }
}

/// Forces an unwind: no search phase.  The stop script is recorded in
/// the exception's first private word and consulted before every
/// frame; personalities run with `FORCE_UNWIND | CLEANUP_PHASE`.
#[allow(non_snake_case)]
pub fn _Unwind_ForceUnwind(
    exception: &mut UnwindException,
    p: &Process,
    saved_ctx: &Context,
    stop: StopScript,
    stop_arg: u64,
) -> (r: RaiseOutcome)
    requires
        p.memory.wf(),
        spec_force_bounded(p, saved_ctx@, stop, 0),
    ensures
        *final(exception) == (UnwindException {
            private_1: Some(stop),
            private_2: stop_arg,
            ..*old(exception)
        }),
        exists|n: nat|
            {
                let s = #[trigger] spec_force(p, saved_ctx@, stop, 0, n);
                s.1 == r.personality_calls@ && s.2 == r.stop_calls@ && (match s.0 {
                    ForceEnd::Install(c) => r.code.0 == INSTALL_CONTEXT && spec_install_view(&r)
                        == Some(c),
                    ForceEnd::End => r.code.0 == END_OF_STACK && r.install is None,
                    ForceEnd::Fatal => r.code.0 == FATAL_PHASE2_ERROR && r.install is None,
                    ForceEnd::Out => false,
                })
            },
{
    exception.private_1 = Some(stop);
    exception.private_2 = stop_arg;
    let (end, pcalls, scalls) = force_walk(p, saved_ctx, stop, 0);
    match end {
        ForceExec::Install(c) => RaiseOutcome {
            code: UnwindReasonCode(INSTALL_CONTEXT),
            install: Some(c),
            personality_calls: pcalls,
            stop_calls: scalls,
        },
        ForceExec::End => RaiseOutcome {
            code: UnwindReasonCode(END_OF_STACK),
            install: None,
            personality_calls: pcalls,
            stop_calls: scalls,
        },
        ForceExec::Fatal => RaiseOutcome {
            code: UnwindReasonCode(FATAL_PHASE2_ERROR),
            install: None,
            personality_calls: pcalls,
            stop_calls: scalls,
        },
    }
}

/// Resumes propagation from a landing pad that did not consume the
/// exception.  A normal raise continues phase 2 from the recorded
/// handler CFA, without re-running phase 1; a forced unwind continues
/// with its recorded stop script.  The production ABI aborts if the
/// continued phase fails to install, so the contract asks the caller
/// for a world in which it installs.
#[allow(non_snake_case)]
pub fn _Unwind_Resume(exception: &mut UnwindException, p: &Process, saved_ctx: &Context) -> (r:
    RaiseOutcome)
    requires
        p.memory.wf(),
        (match old(exception).private_1 {
            None => spec_phase2_bounded(p, saved_ctx@, old(exception).private_2) && forall|m: nat|
                !(#[trigger] spec_phase2(p, saved_ctx@, old(exception).private_2, m).0 is Fatal),
            Some(stop) => spec_force_bounded(p, saved_ctx@, stop, 0) && forall|m: nat|
                !(#[trigger] spec_force(p, saved_ctx@, stop, 0, m).0 is Fatal) && !(spec_force(
                    p,
                    saved_ctx@,
                    stop,
                    0,
                    m,
                ).0 is End)
        }),
    ensures
        r.code.0 == INSTALL_CONTEXT,
        r.install is Some,
        *final(exception) == *old(exception),
        (match old(exception).private_1 {
            None => exists|m: nat|
                #[trigger] spec_phase2(p, saved_ctx@, old(exception).private_2, m) == (
                    Phase2End::Install(r.install->Some_0@),
                    r.personality_calls@,
                ) && r.stop_calls@.len() == 0,
            Some(stop) => exists|m: nat|
                #[trigger] spec_force(p, saved_ctx@, stop, 0, m) == (
                    ForceEnd::Install(r.install->Some_0@),
                    r.personality_calls@,
                    r.stop_calls@,
                )
        }),
{
    match exception.private_1 {
        None => {
            let handler_cfa = exception.private_2;
            let (installed, calls) = phase2_walk(p, saved_ctx, handler_cfa);
            match installed {
                Some(c) => RaiseOutcome {
                    code: UnwindReasonCode(INSTALL_CONTEXT),
                    install: Some(c),
                    personality_calls: calls,
                    stop_calls: Vec::new(),
                },
                None => {
                    proof {
                        assert(false);
                    }
                    RaiseOutcome {
                        code: UnwindReasonCode(INSTALL_CONTEXT),
                        install: None,
                        personality_calls: calls,
                        stop_calls: Vec::new(),
                    }
                },
            }
        },
        Some(stop) => {
            let (end, pcalls, scalls) = force_walk(p, saved_ctx, stop, 0);
            match end {
                ForceExec::Install(c) => RaiseOutcome {
                    code: UnwindReasonCode(INSTALL_CONTEXT),
                    install: Some(c),
                    personality_calls: pcalls,
                    stop_calls: scalls,
                },
                _ => {
                    proof {
                        assert(false);
                    }
                    RaiseOutcome {
                        code: UnwindReasonCode(INSTALL_CONTEXT),
                        install: None,
                        personality_calls: pcalls,
                        stop_calls: scalls,
                    }
                },
            }
        },
    }
}

/// Re-raises an exception from a catch block: a normal raise goes
/// through `_Unwind_RaiseException` again, a forced unwind continues
/// with its recorded stop script and must install.
#[allow(non_snake_case)]
pub fn _Unwind_Resume_or_Rethrow(
    exception: &mut UnwindException,
    p: &Process,
    saved_ctx: &Context,
) -> (r: RaiseOutcome)
    requires
        p.memory.wf(),
        (match old(exception).private_1 {
            None => spec_phase1_bounded(p, saved_ctx@) && forall|n: nat|
                (#[trigger] spec_phase1(p, saved_ctx@, n).0 matches Phase1End::Found(cfa)
                    ==> spec_phase2_bounded(p, saved_ctx@, cfa)),
            Some(stop) => spec_force_bounded(p, saved_ctx@, stop, 0) && forall|m: nat|
                !(#[trigger] spec_force(p, saved_ctx@, stop, 0, m).0 is Fatal) && !(spec_force(
                    p,
                    saved_ctx@,
                    stop,
                    0,
                    m,
                ).0 is End)
        }),
    ensures
        (match old(exception).private_1 {
            None => exists|n: nat|
                #[trigger] spec_raise_matches(
                    p,
                    saved_ctx@,
                    *old(exception),
                    *final(exception),
                    r.code,
                    spec_install_view(&r),
                    r.personality_calls@,
                    n,
                ),
            Some(stop) => r.code.0 == INSTALL_CONTEXT && *final(exception) == *old(exception)
                && exists|m: nat|
                #[trigger] spec_force(p, saved_ctx@, stop, 0, m) == (
                    ForceEnd::Install(r.install->Some_0@),
                    r.personality_calls@,
                    r.stop_calls@,
                )
        }),
{
    match exception.private_1 {
        None => _Unwind_RaiseException(exception, p, saved_ctx),
        Some(stop) => {
            let (end, pcalls, scalls) = force_walk(p, saved_ctx, stop, 0);
            match end {
                ForceExec::Install(c) => RaiseOutcome {
                    code: UnwindReasonCode(INSTALL_CONTEXT),
                    install: Some(c),
                    personality_calls: pcalls,
                    stop_calls: scalls,
                },
                _ => {
                    proof {
                        assert(false);
                    }
                    RaiseOutcome {
                        code: UnwindReasonCode(INSTALL_CONTEXT),
                        install: None,
                        personality_calls: pcalls,
                        stop_calls: scalls,
                    }
                },
            }
        },
    }
}

/// The pair a personality or trace callback works on: the frame under
/// inspection, if any, and that frame's register file.
#[derive(PartialEq, Eq, Debug)]
pub struct UnwindContext {
    /// The frame, absent on the final backtrace callback.
    pub frame: Option<Frame>,
    /// The register file of that frame.
    pub ctx: Context,
}

/// Reads a general-purpose register of the inspected frame.
#[allow(non_snake_case)]
pub fn _Unwind_GetGR(unwind_ctx: &UnwindContext, index: u16) -> (r: u64)
    requires
        index < crate::arch::NUM_REGS,
    ensures
        r == unwind_ctx.ctx@[index as int],
{
    unwind_ctx.ctx.get(index)
}

/// The CFA of the inspected frame: its stack pointer, by the seeding
/// invariant of `Frame::unwind`.
#[allow(non_snake_case)]
pub fn _Unwind_GetCFA(unwind_ctx: &UnwindContext) -> (r: u64)
    ensures
        r == unwind_ctx.ctx@[SP as int],
{
    unwind_ctx.ctx.sp()
}

/// Writes a general-purpose register of the inspected frame.
#[allow(non_snake_case)]
pub fn _Unwind_SetGR(unwind_ctx: &mut UnwindContext, index: u16, value: u64)
    requires
        index < crate::arch::NUM_REGS,
    ensures
        final(unwind_ctx).ctx@ =~= old(unwind_ctx).ctx@.update(index as int, value),
        final(unwind_ctx).frame == old(unwind_ctx).frame,
{
    unwind_ctx.ctx.set(index, value);
}

/// Reads the instruction pointer: the return-address register.
#[allow(non_snake_case)]
pub fn _Unwind_GetIP(unwind_ctx: &UnwindContext) -> (r: u64)
    ensures
        r == unwind_ctx.ctx@[RA as int],
{
    unwind_ctx.ctx.ra()
}

/// Reads the instruction pointer and reports that it is a
/// return-to address, never a pre-call one: the outparam is always
/// zero.
#[allow(non_snake_case)]
pub fn _Unwind_GetIPInfo(unwind_ctx: &UnwindContext, ip_before_insn: &mut i32) -> (r: u64)
    ensures
        r == unwind_ctx.ctx@[RA as int],
        *final(ip_before_insn) == 0,
{
    *ip_before_insn = 0;
    unwind_ctx.ctx.ra()
}

/// Writes the instruction pointer: the return-address register.
#[allow(non_snake_case)]
pub fn _Unwind_SetIP(unwind_ctx: &mut UnwindContext, value: u64)
    ensures
        final(unwind_ctx).ctx@ =~= old(unwind_ctx).ctx@.update(RA as int, value),
        final(unwind_ctx).frame == old(unwind_ctx).frame,
{
    unwind_ctx.ctx.set(RA, value);
}

/// The language-specific data area of the inspected frame, zero when
/// there is no frame or no LSDA.
#[allow(non_snake_case)]
pub fn _Unwind_GetLanguageSpecificData(unwind_ctx: &UnwindContext, mem: &Memory) -> (r: u64)
    requires
        mem.wf(),
    ensures
        r == (match unwind_ctx.frame {
            Some(f) => crate::frame::spec_lsda(&f, mem),
            None => 0,
        }),
{
    match &unwind_ctx.frame {
        Some(f) => f.lsda(mem),
        None => 0,
    }
}

/// The start address of the function owning the inspected frame, zero
/// when there is no frame.
#[allow(non_snake_case)]
pub fn _Unwind_GetRegionStart(unwind_ctx: &UnwindContext) -> (r: u64)
    ensures
        r == (match unwind_ctx.frame {
            Some(f) => f.fde_result.fde.initial_address,
            None => 0,
        }),
{
    match &unwind_ctx.frame {
        Some(f) => f.initial_address(),
        None => 0,
    }
}

/// The text-relative base of the inspected frame's tables.  The
/// production ABI reads the base unconditionally, so a frame whose
/// tables carry none is ruled out here.
#[allow(non_snake_case)]
pub fn _Unwind_GetTextRelBase(unwind_ctx: &UnwindContext) -> (r: u64)
    requires
        unwind_ctx.frame matches Some(f) ==> f.fde_result.bases.text is Some,
    ensures
        r == (match unwind_ctx.frame {
            Some(f) => f.fde_result.bases.text->Some_0,
            None => 0,
        }),
{
    match &unwind_ctx.frame {
        Some(f) => match f.fde_result.bases.text {
            Some(t) => t,
            None => 0,
        },
        None => 0,
    }
}

/// The data-relative base of the inspected frame's tables.  The
/// production ABI reads the base unconditionally, so a frame whose
/// tables carry none is ruled out here.
#[allow(non_snake_case)]
pub fn _Unwind_GetDataRelBase(unwind_ctx: &UnwindContext) -> (r: u64)
    requires
        unwind_ctx.frame matches Some(f) ==> f.fde_result.bases.got is Some,
    ensures
        r == (match unwind_ctx.frame {
            Some(f) => f.fde_result.bases.got->Some_0,
            None => 0,
        }),
{
    match &unwind_ctx.frame {
        Some(f) => match f.fde_result.bases.got {
            Some(g) => g,
            None => 0,
        },
        None => 0,
    }
}

/// The start address of the function whose FDE covers `pc`, or zero
/// when no FDE does.
#[allow(non_snake_case)]
pub fn _Unwind_FindEnclosingFunction(pc: u64, finder: &GlobalFinder, mem: &Memory) -> (r: u64)
    requires
        mem.wf(),
    ensures
        r == (match spec_global_find(finder, pc as int, mem) {
            Some(res) => res.0.initial_address,
            None => 0,
        }),
{
    match finder.find_fde(pc, mem) {
        Some(res) => res.fde.initial_address,
        None => 0,
    }
}

/// In phase 2, a personality is called with `HANDLER_FRAME` exactly
/// at the frames whose stack pointer equals the recorded handler CFA:
/// every call of the phase-2 trace has the flag if and only if its
/// frame's stack pointer is that CFA.
pub proof fn lemma_phase2_handler_frame_iff(
    p: &Process,
    ctx: Seq<u64>,
    handler_cfa: u64,
    fuel: nat,
    i: int,
)
    requires
        0 <= i < spec_phase2(p, ctx, handler_cfa, fuel).1.len(),
    ensures
        ({
            let c = spec_phase2(p, ctx, handler_cfa, fuel).1[i];
            ((c.actions.0 & HANDLER_FRAME) != 0) <==> c.sp == handler_cfa
        }),
    decreases fuel,
{
    assert(((CLEANUP_PHASE | HANDLER_FRAME) & HANDLER_FRAME) != 0) by (bit_vector);
    assert(((CLEANUP_PHASE | 0) & HANDLER_FRAME) == 0) by (bit_vector);
    if fuel > 0 {
        match spec_frame_step(p, ctx) {
            FrameStep::Next(fv) => {
                match spec_personality_addr(fv.fde, &p.memory) {
                    None => {
                        match spec_unwind_frame(fv, ctx, &p.memory) {
                            Some(c2) => {
                                lemma_phase2_handler_frame_iff(
                                    p,
                                    c2,
                                    handler_cfa,
                                    (fuel - 1) as nat,
                                    i,
                                );
                            },
                            None => {},
                        }
                    },
                    Some(a) => {
                        match spec_find_script(p.personalities@, a) {
                            Some(sc) => {
                                let is_handler = ctx[SP as int] == handler_cfa;
                                let result = if is_handler {
                                    sc.handler
                                } else {
                                    sc.cleanup
                                };
                                if result.0 == CONTINUE_UNWIND && i >= 1 {
                                    match spec_unwind_frame(fv, ctx, &p.memory) {
                                        Some(c2) => {
                                            lemma_phase2_handler_frame_iff(
                                                p,
                                                c2,
                                                handler_cfa,
                                                (fuel - 1) as nat,
                                                i - 1,
                                            );
                                        },
                                        None => {},
                                    }
                                }
                            },
                            None => {},
                        }
                    },
                }
            },
            _ => {},
        }
    }
}

/// The handler flag names one frame: any two phase-2 calls carrying
/// `HANDLER_FRAME` were made at the same stack pointer, the recorded
/// handler CFA, so on a stack whose frames carry distinct stack
/// pointers the flag appears at exactly one call.
pub proof fn lemma_phase2_handler_frame_unique(
    p: &Process,
    ctx: Seq<u64>,
    handler_cfa: u64,
    fuel: nat,
    i: int,
    j: int,
)
    requires
        0 <= i < spec_phase2(p, ctx, handler_cfa, fuel).1.len(),
        0 <= j < spec_phase2(p, ctx, handler_cfa, fuel).1.len(),
        spec_phase2(p, ctx, handler_cfa, fuel).1[i].actions.0 & HANDLER_FRAME != 0,
        spec_phase2(p, ctx, handler_cfa, fuel).1[j].actions.0 & HANDLER_FRAME != 0,
    ensures
        spec_phase2(p, ctx, handler_cfa, fuel).1[i].sp == handler_cfa,
        spec_phase2(p, ctx, handler_cfa, fuel).1[j].sp == handler_cfa,
        spec_phase2(p, ctx, handler_cfa, fuel).1[i].sp == spec_phase2(
            p,
            ctx,
            handler_cfa,
            fuel,
        ).1[j].sp,
{
    lemma_phase2_handler_frame_iff(p, ctx, handler_cfa, fuel, i);
    lemma_phase2_handler_frame_iff(p, ctx, handler_cfa, fuel, j);
}

/// When phase 2 installs, the installed register file is the claimed
/// frame's file with the personality's stores applied, and the edit
/// channel never moves the stack pointer: the installed file's stack
/// pointer is the one recorded for the final call of the trace.  With
/// the flag law above, an install made at the handler frame therefore
/// lands with `SP` equal to the recorded handler CFA.
pub proof fn lemma_phase2_install_sp(p: &Process, ctx: Seq<u64>, handler_cfa: u64, fuel: nat)
    requires
        ctx.len() == crate::arch::NUM_REGS,
        spec_phase2(p, ctx, handler_cfa, fuel).0 is Install,
    ensures
        spec_phase2(p, ctx, handler_cfa, fuel).1.len() >= 1,
        spec_phase2(p, ctx, handler_cfa, fuel).0 matches Phase2End::Install(c) && c[SP as int]
            == spec_phase2(p, ctx, handler_cfa, fuel).1.last().sp,
    decreases fuel,
{
    if fuel > 0 {
        match spec_frame_step(p, ctx) {
            FrameStep::Next(fv) => {
                match spec_personality_addr(fv.fde, &p.memory) {
                    None => {
                        match spec_unwind_frame(fv, ctx, &p.memory) {
                            Some(c2) => {
                                lemma_phase2_install_sp(p, c2, handler_cfa, (fuel - 1) as nat);
                            },
                            None => {},
                        }
                    },
                    Some(a) => {
                        match spec_find_script(p.personalities@, a) {
                            Some(sc) => {
                                let is_handler = ctx[SP as int] == handler_cfa;
                                let result = if is_handler {
                                    sc.handler
                                } else {
                                    sc.cleanup
                                };
                                if result.0 == CONTINUE_UNWIND {
                                    match spec_unwind_frame(fv, ctx, &p.memory) {
                                        Some(c2) => {
                                            lemma_phase2_install_sp(
                                                p,
                                                c2,
                                                handler_cfa,
                                                (fuel - 1) as nat,
                                            );
                                        },
                                        None => {},
                                    }
                                } else if result.0 == INSTALL_CONTEXT {
                                    lemma_apply_edits_keep_sp(ctx, sc.install_edits);
                                }
                            },
                            None => {},
                        }
                    },
                }
            },
            _ => {},
        }
    }
}

/// An install made at the handler frame lands in the recorded frame:
/// when phase 2 ends with `INSTALL_CONTEXT` at a call carrying
/// `HANDLER_FRAME`, the installed register file's stack pointer is
/// the handler CFA that phase 1 recorded.
pub proof fn lemma_phase2_installs_at_handler(p: &Process, ctx: Seq<u64>, handler_cfa: u64, m: nat)
    requires
        ctx.len() == crate::arch::NUM_REGS,
        spec_phase2(p, ctx, handler_cfa, m).0 is Install,
        (spec_phase2(p, ctx, handler_cfa, m).1.len() >= 1 && spec_phase2(
            p,
            ctx,
            handler_cfa,
            m,
        ).1.last().actions.0 & HANDLER_FRAME != 0),
    ensures
        spec_phase2(p, ctx, handler_cfa, m).0 matches Phase2End::Install(c) && c[SP as int]
            == handler_cfa,
{
    lemma_phase2_install_sp(p, ctx, handler_cfa, m);
    lemma_phase2_handler_frame_iff(
        p,
        ctx,
        handler_cfa,
        m,
        spec_phase2(p, ctx, handler_cfa, m).1.len() - 1,
    );
}

/// Phase 1 records the handler frame faithfully: when the search ends
/// in `Found(cfa)`, its final personality call was made at a frame
/// whose stack pointer is `cfa`, and that call returned
/// `HANDLER_FOUND`.
pub proof fn lemma_phase1_found_sp(p: &Process, ctx: Seq<u64>, n: nat, handler_cfa: u64)
    requires
        spec_phase1(p, ctx, n).0 == Phase1End::Found(handler_cfa),
    ensures
        spec_phase1(p, ctx, n).1.len() >= 1,
        spec_phase1(p, ctx, n).1.last().sp == handler_cfa,
        spec_phase1(p, ctx, n).1.last().result.0 == HANDLER_FOUND,
    decreases n,
{
    if n > 0 {
        match spec_frame_step(p, ctx) {
            FrameStep::Next(fv) => {
                match spec_personality_addr(fv.fde, &p.memory) {
                    None => {
                        match spec_unwind_frame(fv, ctx, &p.memory) {
                            Some(c2) => {
                                lemma_phase1_found_sp(p, c2, (n - 1) as nat, handler_cfa);
                            },
                            None => {},
                        }
                    },
                    Some(a) => {
                        match spec_find_script(p.personalities@, a) {
                            Some(sc) => {
                                if sc.search.0 == CONTINUE_UNWIND {
                                    match spec_unwind_frame(fv, ctx, &p.memory) {
                                        Some(c2) => {
                                            lemma_phase1_found_sp(
                                                p,
                                                c2,
                                                (n - 1) as nat,
                                                handler_cfa,
                                            );
                                        },
                                        None => {},
                                    }
                                }
                            },
                            None => {},
                        }
                    },
                }
            },
            _ => {},
        }
    }
}

/// The two phases walk the same stack: wherever both traces are long
/// enough, their calls happen at the same frame with the same stack
/// pointer, index by index.  Together with the laws above this gives
/// the handler-frame guarantee: phase 1's final call claimed the frame
/// whose stack pointer it recorded, phase 2's call at that index is
/// made at the same frame, and exactly there `HANDLER_FRAME` is set.
pub proof fn lemma_phase2_visits_phase1_frames(
    p: &Process,
    ctx: Seq<u64>,
    handler_cfa: u64,
    n: nat,
    m: nat,
    i: int,
)
    requires
        0 <= i < spec_phase1(p, ctx, n).1.len(),
        i < spec_phase2(p, ctx, handler_cfa, m).1.len(),
    ensures
        spec_phase2(p, ctx, handler_cfa, m).1[i].initial_address == spec_phase1(
            p,
            ctx,
            n,
        ).1[i].initial_address,
        spec_phase2(p, ctx, handler_cfa, m).1[i].sp == spec_phase1(p, ctx, n).1[i].sp,
    decreases n,
{
    if n > 0 && m > 0 {
        match spec_frame_step(p, ctx) {
            FrameStep::Next(fv) => {
                match spec_personality_addr(fv.fde, &p.memory) {
                    None => {
                        match spec_unwind_frame(fv, ctx, &p.memory) {
                            Some(c2) => {
                                lemma_phase2_visits_phase1_frames(
                                    p,
                                    c2,
                                    handler_cfa,
                                    (n - 1) as nat,
                                    (m - 1) as nat,
                                    i,
                                );
                            },
                            None => {},
                        }
                    },
                    Some(a) => {
                        match spec_find_script(p.personalities@, a) {
                            Some(sc) => {
                                if i >= 1 {
                                    match spec_unwind_frame(fv, ctx, &p.memory) {
                                        Some(c2) => {
                                            lemma_phase2_visits_phase1_frames(
                                                p,
                                                c2,
                                                handler_cfa,
                                                (n - 1) as nat,
                                                (m - 1) as nat,
                                                i - 1,
                                            );
                                        },
                                        None => {},
                                    }
                                }
                            },
                            None => {},
                        }
                    },
                }
            },
            _ => {},
        }
    }
}

/// A found script is one of the process's scripts.
proof fn lemma_find_script_member(ss: Seq<PersonalityScript>, addr: u64)
    ensures
        spec_find_script(ss, addr) matches Some(sc) ==> exists|i: int|
            0 <= i < ss.len() && ss[i] == sc,
    decreases ss.len(),
{
    if ss.len() > 0 && ss[0].addr != addr {
        lemma_find_script_member(ss.drop_first(), addr);
        if spec_find_script(ss.drop_first(), addr) is Some {
            let sc = spec_find_script(ss.drop_first(), addr)->Some_0;
            let i = choose|i: int| 0 <= i < ss.drop_first().len() && ss.drop_first()[i] == sc;
            assert(ss[i + 1] == sc);
        }
    }
}

/// The round-trip law's core: when every personality passes in the
/// search phase, phase 1 never reports a handler — it ends at the end
/// of the stack, or on a fault — so a raise over pass-through
/// personalities returns `END_OF_STACK` and leaves the caller's saved
/// registers untouched.
pub proof fn lemma_all_continue_finds_no_handler(p: &Process, ctx: Seq<u64>, fuel: nat)
    requires
        forall|i: int|
            0 <= i < p.personalities@.len() ==> (#[trigger] p.personalities@[i]).search.0
                == CONTINUE_UNWIND,
    ensures
        !(spec_phase1(p, ctx, fuel).0 is Found),
    decreases fuel,
{
    if fuel > 0 {
        match spec_frame_step(p, ctx) {
            FrameStep::Next(fv) => {
                match spec_personality_addr(fv.fde, &p.memory) {
                    None => {
                        match spec_unwind_frame(fv, ctx, &p.memory) {
                            Some(c2) => {
                                lemma_all_continue_finds_no_handler(p, c2, (fuel - 1) as nat);
                            },
                            None => {},
                        }
                    },
                    Some(a) => {
                        lemma_find_script_member(p.personalities@, a);
                        match spec_find_script(p.personalities@, a) {
                            Some(sc) => {
                                assert(sc.search.0 == CONTINUE_UNWIND);
                                match spec_unwind_frame(fv, ctx, &p.memory) {
                                    Some(c2) => {
                                        lemma_all_continue_finds_no_handler(
                                            p,
                                            c2,
                                            (fuel - 1) as nat,
                                        );
                                    },
                                    None => {},
                                }
                            },
                            None => {},
                        }
                    },
                }
            },
            _ => {},
        }
    }
}

/// What a trace callback returns, as data: `NO_REASON` on every call
/// except the one whose index equals `fail_at`.
#[derive(Clone, Copy, PartialEq, Eq, Structural, Debug)]
pub struct TraceScript {
    /// The index of the call, counting from zero, on which the
    /// callback returns `NORMAL_STOP` instead of `NO_REASON`.
    pub fail_at: Option<u64>,
}

/// How a backtrace ended.
#[derive(Clone, Copy, PartialEq, Eq, Structural, Debug)]
pub enum BacktraceEnd {
    /// The stack was walked to its end.
    End,
    /// A malformed table, or the callback asked to stop.
    Fatal,
    /// The walk did not finish within the given fuel.
    Out,
}

/// A backtrace walk: the callback runs once per frame, observing the
/// frame's function start address, and once more with no frame when
/// the stack ends, observing zero.  Any callback result other than
/// `NO_REASON` aborts the walk.
pub open spec fn spec_backtrace(p: &Process, ctx: Seq<u64>, tr: TraceScript, idx: u64, fuel: nat) -> (
    BacktraceEnd,
    Seq<u64>,
)
    decreases fuel,
{
    if fuel == 0 {
        (BacktraceEnd::Out, Seq::empty())
    } else {
        match spec_frame_step(p, ctx) {
            FrameStep::Fatal => (BacktraceEnd::Fatal, Seq::empty()),
            FrameStep::End => if tr.fail_at == Some(idx) {
                (BacktraceEnd::Fatal, seq![0u64])
            } else {
                (BacktraceEnd::End, seq![0u64])
            },
            FrameStep::Next(fv) => {
                let here = fv.fde.initial_address;
                if tr.fail_at == Some(idx) {
                    (BacktraceEnd::Fatal, seq![here])
                } else {
                    match spec_unwind_frame(fv, ctx, &p.memory) {
                        None => (BacktraceEnd::Fatal, seq![here]),
                        Some(c2) => {
                            let rest = spec_backtrace(p, c2, tr, idx.wrapping_add(1), (fuel - 1) as nat);
                            (rest.0, seq![here] + rest.1)
                        },
                    }
                }
            },
        }
    }
}

/// The backtrace from `ctx` settles within some fuel.
pub open spec fn spec_backtrace_bounded(p: &Process, ctx: Seq<u64>, tr: TraceScript, idx: u64) -> bool {
    exists|n: nat| !(spec_backtrace(p, ctx, tr, idx, n).0 is Out)
}

/// Walks the stack calling the trace callback on every frame.
/// Returns `END_OF_STACK` after a full walk and `FATAL_PHASE1_ERROR`
/// when a table is malformed or the callback asks to stop, with the
/// region starts the callback observed, youngest first.
#[allow(non_snake_case)]
pub fn _Unwind_Backtrace(p: &Process, saved_ctx: &Context, trace: TraceScript) -> (r: (
    UnwindReasonCode,
    Vec<u64>,
))
    requires
        p.memory.wf(),
        spec_backtrace_bounded(p, saved_ctx@, trace, 0),
    ensures
        exists|n: nat|
            {
                let s = #[trigger] spec_backtrace(p, saved_ctx@, trace, 0, n);
                s.1 == r.1@ && (match s.0 {
                    BacktraceEnd::End => r.0.0 == END_OF_STACK,
                    BacktraceEnd::Fatal => r.0.0 == FATAL_PHASE1_ERROR,
                    BacktraceEnd::Out => false,
                })
            },
{
    let ghost n0 = choose|n: nat| !(spec_backtrace(p, saved_ctx@, trace, 0, n).0 is Out);
    let mut ctx = *saved_ctx;
    let mut idx: u64 = 0;
    let mut seen: Vec<u64> = Vec::new();
    let ghost mut fuel = n0;
    proof {
        assert(seen@ + spec_backtrace(p, saved_ctx@, trace, 0, n0).1 =~= spec_backtrace(
            p,
            saved_ctx@,
            trace,
            0,
            n0,
        ).1);
    }
    loop
        invariant
            p.memory.wf(),
            !(spec_backtrace(p, saved_ctx@, trace, 0, n0).0 is Out),
            spec_backtrace(p, ctx@, trace, idx, fuel).0 == spec_backtrace(
                p,
                saved_ctx@,
                trace,
                0,
                n0,
            ).0,
            spec_backtrace(p, saved_ctx@, trace, 0, n0).1 == seen@ + spec_backtrace(
                p,
                ctx@,
                trace,
                idx,
                fuel,
            ).1,
        decreases fuel,
    {
        proof {
            if fuel == 0 {
                assert(spec_backtrace(p, ctx@, trace, idx, fuel).0 is Out);
            }
        }
        let ghost spec_here = spec_backtrace(p, ctx@, trace, idx, fuel);
        let frame_or_end = match Frame::from_context(&ctx, &p.finder, &p.memory) {
            Ok(v) => v,
            Err(_) => {
                proof {
                    assert(spec_frame_step(p, ctx@) is Fatal);
                    assert(seen@ + spec_here.1 =~= seen@);
                }
                return (UnwindReasonCode(FATAL_PHASE1_ERROR), seen);
            },
        };
        let failed = match trace.fail_at {
            Some(k) => k == idx,
            None => false,
        };
        let frame = match frame_or_end {
            Some(frame) => frame,
            None => {
                let ghost seen_before = seen@;
                seen.push(0);
                proof {
                    assert(spec_frame_step(p, ctx@) is End);
                    assert(spec_here.1 =~= seq![0u64]);
                    assert(seen@ =~= seen_before + seq![0u64]);
                }
                if failed {
                    return (UnwindReasonCode(FATAL_PHASE1_ERROR), seen);
                }
                return (UnwindReasonCode(END_OF_STACK), seen);
            },
        };
        let ghost fv = spec_view_of_frame(&frame);
        proof {
            assert(spec_frame_step(p, ctx@) == FrameStep::Next(fv));
        }
        let here = frame.initial_address();
        let ghost seen_before = seen@;
        seen.push(here);
        proof {
            assert(seen@ =~= seen_before + seq![here]);
        }
        if failed {
            proof {
                assert(spec_here.1 =~= seq![here]);
            }
            return (UnwindReasonCode(FATAL_PHASE1_ERROR), seen);
        }
        match frame.unwind(&ctx, &p.memory) {
            Ok(c2) => {
                proof {
                    assert(spec_unwind_frame(fv, ctx@, &p.memory) == Some(c2@));
                    let rest = spec_backtrace(p, c2@, trace, idx.wrapping_add(1), (fuel - 1) as nat);
                    assert(spec_here == (rest.0, seq![here] + rest.1));
                    assert(seen_before + (seq![here] + rest.1) =~= seen@ + rest.1);
                    fuel = (fuel - 1) as nat;
                }
                ctx = c2;
                idx = idx.wrapping_add(1);
            },
            Err(_) => {
                proof {
                    assert(spec_unwind_frame(fv, ctx@, &p.memory) is None);
                    assert(spec_here.1 =~= seq![here]);
                }
                return (UnwindReasonCode(FATAL_PHASE1_ERROR), seen);
            },
        }
    }
}

/// Discards an exception a foreign runtime caught: yields the cleanup
/// call to make — the recorded routine with
/// `FOREIGN_EXCEPTION_CAUGHT` — when the exception carries one.
/// Taking the exception by value, this runs at most once per object.
#[allow(non_snake_case)]
pub fn _Unwind_DeleteException(exception: UnwindException) -> (r: Option<(u64, UnwindReasonCode)>)
    ensures
        r == match exception.exception_cleanup {
            Some(f) => Some((f, UnwindReasonCode(crate::abi::FOREIGN_EXCEPTION_CAUGHT))),
            None => None::<(u64, UnwindReasonCode)>,
        },
{
    match exception.exception_cleanup {
        Some(f) => Some((f, UnwindReasonCode(crate::abi::FOREIGN_EXCEPTION_CAUGHT))),
        None => None,
    }
}

} // verus!
