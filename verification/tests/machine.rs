//! End-to-end scenarios for the two-phase state machine over a
//! three-function stack built from hand-assembled `.eh_frame` records.

use unwinding::abi::{
    UnwindAction, UnwindReasonCode, CLEANUP_PHASE, CONTINUE_UNWIND, END_OF_STACK,
    END_OF_STACK_ACTION, FATAL_PHASE1_ERROR, FATAL_PHASE2_ERROR, FOREIGN_EXCEPTION_CAUGHT,
    FORCE_UNWIND, HANDLER_FOUND, HANDLER_FRAME, INSTALL_CONTEXT, SEARCH_PHASE,
};
use unwinding::arch::{Context, RA, SP};
use unwinding::eh_frame::Section;
use unwinding::find_fde::GlobalFinder;
use unwinding::mem::Memory;
use unwinding::unwinder::{
    PersonalityScript, Process, StopScript, TraceScript, UnwindContext, UnwindException,
    _Unwind_Backtrace, _Unwind_DeleteException, _Unwind_FindEnclosingFunction, _Unwind_ForceUnwind,
    _Unwind_GetCFA, _Unwind_GetGR, _Unwind_GetIP, _Unwind_GetIPInfo, _Unwind_GetRegionStart,
    _Unwind_RaiseException, _Unwind_Resume, _Unwind_Resume_or_Rethrow, _Unwind_SetGR,
    _Unwind_SetIP,
};

fn uleb(mut v: u64, out: &mut Vec<u8>) {
    loop {
        let mut b = (v & 0x7f) as u8;
        v >>= 7;
        if v != 0 {
            b |= 0x80;
        }
        out.push(b);
        if v == 0 {
            break;
        }
    }
}

fn sleb(mut v: i64, out: &mut Vec<u8>) {
    loop {
        let b = (v & 0x7f) as u8;
        v >>= 7;
        let done = (v == 0 && b & 0x40 == 0) || (v == -1 && b & 0x40 != 0);
        out.push(if done { b } else { b | 0x80 });
        if done {
            break;
        }
    }
}

/// Appends a CIE with augmentation `zR` (or `zPR` with a personality),
/// absptr encodings, code alignment 1, data alignment -8, return
/// address register 16, and initial instructions
/// `def_cfa(7, 16); offset(16, cfa-8)`.
fn push_cie(out: &mut Vec<u8>, personality: Option<u64>) -> usize {
    let offset = out.len();
    let mut body: Vec<u8> = Vec::new();
    body.extend_from_slice(&0u32.to_le_bytes()); // CIE id
    body.push(1); // version
    match personality {
        Some(_) => body.extend_from_slice(b"zPR\0"),
        None => body.extend_from_slice(b"zR\0"),
    }
    uleb(1, &mut body); // code alignment
    sleb(-8, &mut body); // data alignment
    body.push(16); // return address register
    let mut aug: Vec<u8> = Vec::new();
    if let Some(p) = personality {
        aug.push(0x00); // personality encoding: absptr
        aug.extend_from_slice(&p.to_le_bytes());
    }
    aug.push(0x00); // FDE encoding: absptr
    uleb(aug.len() as u64, &mut body);
    body.extend_from_slice(&aug);
    // def_cfa(7, 16)
    body.push(0x0c);
    uleb(7, &mut body);
    uleb(16, &mut body);
    // offset(16, factored 1) => RA at CFA - 8
    body.push(0x80 | 16);
    uleb(1, &mut body);
    out.extend_from_slice(&(body.len() as u32).to_le_bytes());
    out.extend_from_slice(&body);
    offset
}

/// Appends an FDE pointing back at `cie_offset`, covering
/// `[initial, initial + range)`, with no instructions of its own.
fn push_fde(out: &mut Vec<u8>, cie_offset: usize, initial: u64, range: u64) {
    let offset = out.len();
    let mut body: Vec<u8> = Vec::new();
    let id = (offset + 4 - cie_offset) as u32;
    body.extend_from_slice(&id.to_le_bytes());
    body.extend_from_slice(&initial.to_le_bytes());
    body.extend_from_slice(&range.to_le_bytes());
    uleb(0, &mut body); // augmentation data length
    out.extend_from_slice(&(body.len() as u32).to_le_bytes());
    out.extend_from_slice(&body);
}

const MAIN_PERS: u64 = 0x111;
const G_PERS: u64 = 0x222;
const F_PERS: u64 = 0x333;

/// Builds the finder for the stack `main -> g -> f`: `main` at
/// 0x1000, `g` at 0x2000, `f` at 0x3000, each 0x100 long, each with
/// its own personality routine.
fn three_frame_finder() -> GlobalFinder {
    let mut bytes: Vec<u8> = Vec::new();
    let cie_f = push_cie(&mut bytes, Some(F_PERS));
    push_fde(&mut bytes, cie_f, 0x3000, 0x100);
    let cie_g = push_cie(&mut bytes, Some(G_PERS));
    push_fde(&mut bytes, cie_g, 0x2000, 0x100);
    let cie_main = push_cie(&mut bytes, Some(MAIN_PERS));
    push_fde(&mut bytes, cie_main, 0x1000, 0x100);
    bytes.extend_from_slice(&0u32.to_le_bytes()); // terminator
    let mut finder = GlobalFinder::new();
    finder.fixed = Some((Section { addr: 0x10_0000, bytes }, None, None));
    finder
}

/// The stack memory: `f`'s frame at 0x8000 returning into `g` at
/// 0x2005, `g`'s at 0x8010 returning into `main` at 0x1005, `main`'s
/// at 0x8020 returning to zero.
fn stack_memory() -> Memory {
    let mut bytes = vec![0u8; 0x40];
    bytes[0x08..0x10].copy_from_slice(&0x2005u64.to_le_bytes());
    bytes[0x18..0x20].copy_from_slice(&0x1005u64.to_le_bytes());
    bytes[0x28..0x30].copy_from_slice(&0u64.to_le_bytes());
    Memory::new(0x8000, bytes).unwrap()
}

fn leaf_context() -> Context {
    let mut ctx = Context::zeroed();
    ctx.set(SP, 0x8000);
    ctx.set(RA, 0x3001);
    ctx
}

fn process(scripts: Vec<PersonalityScript>) -> Process {
    Process { finder: three_frame_finder(), memory: stack_memory(), personalities: scripts }
}

fn script(addr: u64, search: i32, cleanup: i32, handler: i32) -> PersonalityScript {
    PersonalityScript {
        addr,
        search: UnwindReasonCode(search),
        cleanup: UnwindReasonCode(cleanup),
        handler: UnwindReasonCode(handler),
        install_edits: [None, None, None],
    }
}

#[test]
fn catch_at_immediate_caller() {
    // `f` raises; `main` catches.  `g` is skipped by starting the walk
    // in `f` with `main` as the direct caller.
    let mut bytes: Vec<u8> = Vec::new();
    let cie_f = push_cie(&mut bytes, Some(F_PERS));
    push_fde(&mut bytes, cie_f, 0x3000, 0x100);
    let cie_main = push_cie(&mut bytes, Some(MAIN_PERS));
    push_fde(&mut bytes, cie_main, 0x1000, 0x100);
    bytes.extend_from_slice(&0u32.to_le_bytes());
    let mut finder = GlobalFinder::new();
    finder.fixed = Some((Section { addr: 0x10_0000, bytes }, None, None));

    let mut mem_bytes = vec![0u8; 0x40];
    mem_bytes[0x08..0x10].copy_from_slice(&0x1005u64.to_le_bytes());
    mem_bytes[0x18..0x20].copy_from_slice(&0u64.to_le_bytes());
    let p = Process {
        finder,
        memory: Memory::new(0x8000, mem_bytes).unwrap(),
        personalities: vec![
            script(F_PERS, CONTINUE_UNWIND, CONTINUE_UNWIND, CONTINUE_UNWIND),
            PersonalityScript {
                // The handler stores the exception argument registers
                // and the landing pad before asking to install.
                install_edits: [Some((0, 0xe0e0)), Some((2, 0xaaaa)), Some((RA, 0x1040))],
                ..script(MAIN_PERS, HANDLER_FOUND, CONTINUE_UNWIND, INSTALL_CONTEXT)
            },
        ],
    };
    let mut ex = UnwindException::new(0x4d4f5a0052555354, None);
    let ctx = leaf_context();
    let out = _Unwind_RaiseException(&mut ex, &p, &ctx);
    assert_eq!(out.code.0, INSTALL_CONTEXT);
    let installed = out.install.expect("a context to install");
    // The handler frame: main's registers, SP at its CFA, with the
    // personality's stores applied — control would land at the
    // landing pad the routine set as the instruction pointer.
    assert_eq!(installed.get(SP), 0x8010);
    assert_eq!(installed.get(0), 0xe0e0);
    assert_eq!(installed.get(2), 0xaaaa);
    assert_eq!(installed.get(RA), 0x1040);
    // Search calls for f and main, then cleanup for f, then the
    // handler frame call for main.
    assert_eq!(out.personality_calls.len(), 4);
    assert_eq!(out.personality_calls[0].initial_address, 0x3000);
    assert_eq!(out.personality_calls[0].actions.0, SEARCH_PHASE);
    assert_eq!(out.personality_calls[1].initial_address, 0x1000);
    assert_eq!(out.personality_calls[1].result.0, HANDLER_FOUND);
    assert_eq!(out.personality_calls[2].initial_address, 0x3000);
    assert_eq!(out.personality_calls[2].actions.0, CLEANUP_PHASE);
    assert_eq!(out.personality_calls[3].initial_address, 0x1000);
    assert_eq!(out.personality_calls[3].actions.0, CLEANUP_PHASE | HANDLER_FRAME);
    // The recorded protocol state: a normal raise with the handler CFA.
    assert!(ex.private_1.is_none());
    assert_eq!(ex.private_2, 0x8010);
}

#[test]
fn no_handler_returns_end_of_stack() {
    let p = process(vec![
        script(F_PERS, CONTINUE_UNWIND, CONTINUE_UNWIND, CONTINUE_UNWIND),
        script(G_PERS, CONTINUE_UNWIND, CONTINUE_UNWIND, CONTINUE_UNWIND),
        script(MAIN_PERS, CONTINUE_UNWIND, CONTINUE_UNWIND, CONTINUE_UNWIND),
    ]);
    let mut ex = UnwindException::new(0, None);
    let ctx = leaf_context();
    let out = _Unwind_RaiseException(&mut ex, &p, &ctx);
    assert_eq!(out.code.0, END_OF_STACK);
    assert!(out.install.is_none());
    // Phase 2 never ran: only the three search calls.
    assert_eq!(out.personality_calls.len(), 3);
    for c in &out.personality_calls {
        assert_eq!(c.actions.0, SEARCH_PHASE);
    }
}

#[test]
fn nested_frames_with_cleanup() {
    let p = process(vec![
        script(F_PERS, CONTINUE_UNWIND, CONTINUE_UNWIND, CONTINUE_UNWIND),
        script(G_PERS, CONTINUE_UNWIND, CONTINUE_UNWIND, CONTINUE_UNWIND),
        script(MAIN_PERS, HANDLER_FOUND, CONTINUE_UNWIND, INSTALL_CONTEXT),
    ]);
    let mut ex = UnwindException::new(0, None);
    let ctx = leaf_context();
    let out = _Unwind_RaiseException(&mut ex, &p, &ctx);
    assert_eq!(out.code.0, INSTALL_CONTEXT);
    assert_eq!(ex.private_2, 0x8020);
    // Phase 2 visits f, then g (cleanup only), then main (handler).
    let phase2: Vec<_> = out.personality_calls[3..].iter().collect();
    assert_eq!(phase2.len(), 3);
    assert_eq!(phase2[0].initial_address, 0x3000);
    assert_eq!(phase2[0].actions.0, CLEANUP_PHASE);
    assert_eq!(phase2[1].initial_address, 0x2000);
    assert_eq!(phase2[1].actions.0, CLEANUP_PHASE);
    assert_eq!(phase2[2].initial_address, 0x1000);
    assert_eq!(phase2[2].actions.0, CLEANUP_PHASE | HANDLER_FRAME);
    // HANDLER_FRAME only at the handler frame.
    for c in &out.personality_calls {
        assert_eq!(
            c.actions.0 & HANDLER_FRAME != 0,
            c.sp == 0x8020 && c.actions.0 & CLEANUP_PHASE != 0
        );
    }
}

#[test]
fn forced_unwind_to_end_of_stack() {
    let p = process(vec![
        script(F_PERS, CONTINUE_UNWIND, CONTINUE_UNWIND, CONTINUE_UNWIND),
        script(G_PERS, CONTINUE_UNWIND, CONTINUE_UNWIND, CONTINUE_UNWIND),
        script(MAIN_PERS, CONTINUE_UNWIND, CONTINUE_UNWIND, CONTINUE_UNWIND),
    ]);
    let mut ex = UnwindException::new(0, None);
    let ctx = leaf_context();
    let stop = StopScript { fail_at: None };
    let out = _Unwind_ForceUnwind(&mut ex, &p, &ctx, stop, 0x5555);
    assert_eq!(out.code.0, END_OF_STACK);
    // Every frame's personality saw FORCE_UNWIND | CLEANUP_PHASE.
    assert_eq!(out.personality_calls.len(), 3);
    for c in &out.personality_calls {
        assert_eq!(c.actions.0, FORCE_UNWIND | CLEANUP_PHASE);
    }
    // One stop call per frame plus the final one with END_OF_STACK.
    assert_eq!(out.stop_calls.len(), 4);
    for c in &out.stop_calls[..3] {
        assert_eq!(c.actions.0, FORCE_UNWIND);
    }
    assert_eq!(out.stop_calls[3].actions.0, FORCE_UNWIND | END_OF_STACK_ACTION);
    // The exception now records the forced unwind.
    assert_eq!(ex.private_1, Some(stop));
    assert_eq!(ex.private_2, 0x5555);
}

#[test]
fn resume_from_cleanup_reaches_handler() {
    // Phase 2 installs at g to run a cleanup...
    let p = process(vec![
        script(F_PERS, CONTINUE_UNWIND, CONTINUE_UNWIND, CONTINUE_UNWIND),
        script(G_PERS, CONTINUE_UNWIND, INSTALL_CONTEXT, CONTINUE_UNWIND),
        script(MAIN_PERS, HANDLER_FOUND, CONTINUE_UNWIND, INSTALL_CONTEXT),
    ]);
    let mut ex = UnwindException::new(0, None);
    let ctx = leaf_context();
    let out = _Unwind_RaiseException(&mut ex, &p, &ctx);
    assert_eq!(out.code.0, INSTALL_CONTEXT);
    let at_g = out.install.expect("installed at g");
    assert_eq!(at_g.get(SP), 0x8010);
    assert_eq!(ex.private_2, 0x8020);
    // ... the cleanup finishes and resumes: with g's cleanup done, its
    // personality now continues, and the unwind reaches main.
    let p2 = process(vec![
        script(F_PERS, CONTINUE_UNWIND, CONTINUE_UNWIND, CONTINUE_UNWIND),
        script(G_PERS, CONTINUE_UNWIND, CONTINUE_UNWIND, CONTINUE_UNWIND),
        script(MAIN_PERS, HANDLER_FOUND, CONTINUE_UNWIND, INSTALL_CONTEXT),
    ]);
    let out2 = _Unwind_Resume(&mut ex, &p2, &at_g);
    assert_eq!(out2.code.0, INSTALL_CONTEXT);
    let at_main = out2.install.expect("installed at main");
    assert_eq!(at_main.get(SP), 0x8020);
    // No search phase ran: every call carries CLEANUP_PHASE.
    for c in &out2.personality_calls {
        assert_ne!(c.actions.0 & CLEANUP_PHASE, 0);
        assert_eq!(c.actions.0 & SEARCH_PHASE, 0);
    }
}

#[test]
fn backtrace_collects_region_starts() {
    let p = process(vec![]);
    let ctx = leaf_context();
    let (code, seen) = _Unwind_Backtrace(&p, &ctx, TraceScript { fail_at: None });
    assert_eq!(code.0, END_OF_STACK);
    // Three frames youngest first, then the final no-frame callback
    // observing zero.
    assert_eq!(seen, vec![0x3000, 0x2000, 0x1000, 0]);
}

#[test]
fn backtrace_callback_can_abort() {
    let p = process(vec![]);
    let ctx = leaf_context();
    let (code, seen) = _Unwind_Backtrace(&p, &ctx, TraceScript { fail_at: Some(1) });
    assert_eq!(code.0, FATAL_PHASE1_ERROR);
    assert_eq!(seen, vec![0x3000, 0x2000]);
}

#[test]
fn round_trip_no_op_personalities() {
    // A no-op personality everywhere: the raise returns END_OF_STACK
    // and the caller's register file is untouched.
    let p = process(vec![
        script(F_PERS, CONTINUE_UNWIND, CONTINUE_UNWIND, CONTINUE_UNWIND),
        script(G_PERS, CONTINUE_UNWIND, CONTINUE_UNWIND, CONTINUE_UNWIND),
        script(MAIN_PERS, CONTINUE_UNWIND, CONTINUE_UNWIND, CONTINUE_UNWIND),
    ]);
    let mut ex = UnwindException::new(7, None);
    let ctx = leaf_context();
    let before = ctx;
    let out = _Unwind_RaiseException(&mut ex, &p, &ctx);
    assert_eq!(out.code.0, END_OF_STACK);
    assert_eq!(ctx, before);
    assert_eq!(ex.exception_class, 7);
}

#[test]
fn delete_exception_calls_cleanup_only_if_present() {
    let ex = UnwindException::new(3, Some(0x99));
    assert_eq!(
        _Unwind_DeleteException(ex),
        Some((0x99, UnwindReasonCode(FOREIGN_EXCEPTION_CAUGHT)))
    );
    let ex2 = UnwindException::new(3, None);
    assert_eq!(_Unwind_DeleteException(ex2), None);
}

#[test]
fn find_enclosing_function() {
    let finder = three_frame_finder();
    let mem = stack_memory();
    assert_eq!(_Unwind_FindEnclosingFunction(0x2010, &finder, &mem), 0x2000);
    // The query is for the given counter itself: a function's first
    // byte already belongs to it, one past its last byte does not.
    assert_eq!(_Unwind_FindEnclosingFunction(0x3000, &finder, &mem), 0x3000);
    assert_eq!(_Unwind_FindEnclosingFunction(0x30ff, &finder, &mem), 0x3000);
    assert_eq!(_Unwind_FindEnclosingFunction(0x3100, &finder, &mem), 0);
    assert_eq!(_Unwind_FindEnclosingFunction(0x9999, &finder, &mem), 0);
}

#[test]
fn context_accessors() {
    let mut ctx = Context::zeroed();
    ctx.set(SP, 0x8000);
    ctx.set(RA, 0x3001);
    ctx.set(3, 42);
    let mut uc = UnwindContext { frame: None, ctx };
    assert_eq!(_Unwind_GetGR(&uc, 3), 42);
    assert_eq!(_Unwind_GetCFA(&uc), 0x8000);
    assert_eq!(_Unwind_GetIP(&uc), 0x3001);
    let mut before_insn: i32 = 5;
    assert_eq!(_Unwind_GetIPInfo(&uc, &mut before_insn), 0x3001);
    assert_eq!(before_insn, 0);
    _Unwind_SetGR(&mut uc, 0, 9);
    assert_eq!(_Unwind_GetGR(&uc, 0), 9);
    _Unwind_SetIP(&mut uc, 0x1234);
    assert_eq!(_Unwind_GetIP(&uc), 0x1234);
    assert_eq!(_Unwind_GetRegionStart(&uc), 0);
}

#[test]
fn forced_unwind_stop_can_end_it() {
    let p = process(vec![
        script(F_PERS, CONTINUE_UNWIND, CONTINUE_UNWIND, CONTINUE_UNWIND),
        script(G_PERS, CONTINUE_UNWIND, CONTINUE_UNWIND, CONTINUE_UNWIND),
        script(MAIN_PERS, CONTINUE_UNWIND, CONTINUE_UNWIND, CONTINUE_UNWIND),
    ]);
    let mut ex = UnwindException::new(0, None);
    let ctx = leaf_context();
    // The stop function objects on its second call: the walk is fatal.
    let out = _Unwind_ForceUnwind(&mut ex, &p, &ctx, StopScript { fail_at: Some(1) }, 0);
    assert_eq!(out.code.0, FATAL_PHASE2_ERROR);
    assert_eq!(out.stop_calls.len(), 2);
    assert_eq!(out.personality_calls.len(), 1);
}

#[test]
fn resume_or_rethrow_re_raises_a_normal_exception() {
    // A normal exception rethrown from a catch block runs both phases
    // again.
    let p = process(vec![
        script(F_PERS, CONTINUE_UNWIND, CONTINUE_UNWIND, CONTINUE_UNWIND),
        script(G_PERS, CONTINUE_UNWIND, CONTINUE_UNWIND, CONTINUE_UNWIND),
        script(MAIN_PERS, HANDLER_FOUND, CONTINUE_UNWIND, INSTALL_CONTEXT),
    ]);
    let mut ex = UnwindException::new(0, None);
    let ctx = leaf_context();
    let out = _Unwind_Resume_or_Rethrow(&mut ex, &p, &ctx);
    assert_eq!(out.code.0, INSTALL_CONTEXT);
    assert_eq!(ex.private_2, 0x8020);
    // A forced exception continues its forced unwind instead; with
    // an installing personality the walk must install.
    let pf = process(vec![
        script(F_PERS, CONTINUE_UNWIND, CONTINUE_UNWIND, CONTINUE_UNWIND),
        script(G_PERS, CONTINUE_UNWIND, INSTALL_CONTEXT, CONTINUE_UNWIND),
        script(MAIN_PERS, CONTINUE_UNWIND, CONTINUE_UNWIND, CONTINUE_UNWIND),
    ]);
    let mut exf = UnwindException::new(0, None);
    exf.private_1 = Some(StopScript { fail_at: None });
    exf.private_2 = 0;
    let out2 = _Unwind_Resume_or_Rethrow(&mut exf, &pf, &ctx);
    assert_eq!(out2.code.0, INSTALL_CONTEXT);
    assert_eq!(out2.install.unwrap().get(SP), 0x8010);
    assert!(!out2.stop_calls.is_empty());
}

#[test]
fn unknown_personality_is_fatal() {
    // A frame names a personality routine for which no script exists:
    // the machine cannot ask it, and the search phase is fatal.
    let p = process(vec![]);
    let mut ex = UnwindException::new(0, None);
    let ctx = leaf_context();
    let out = _Unwind_RaiseException(&mut ex, &p, &ctx);
    assert_eq!(out.code.0, FATAL_PHASE1_ERROR);
    assert!(out.install.is_none());
}

#[test]
fn malformed_table_mid_walk_is_phase1_fatal() {
    // The middle frame's FDE carries an unknown opcode: the search
    // phase fails after the first frame.
    let mut bytes: Vec<u8> = Vec::new();
    let cie_f = push_cie(&mut bytes, Some(F_PERS));
    push_fde(&mut bytes, cie_f, 0x3000, 0x100);
    let cie_g = push_cie(&mut bytes, Some(G_PERS));
    let g_off = bytes.len();
    let mut body: Vec<u8> = Vec::new();
    body.extend_from_slice(&((g_off + 4 - cie_g) as u32).to_le_bytes());
    body.extend_from_slice(&0x2000u64.to_le_bytes());
    body.extend_from_slice(&0x100u64.to_le_bytes());
    body.push(0); // augmentation data length
    body.push(0x3f); // an opcode outside the supported set
    bytes.extend_from_slice(&(body.len() as u32).to_le_bytes());
    bytes.extend_from_slice(&body);
    bytes.extend_from_slice(&0u32.to_le_bytes());
    let mut finder = GlobalFinder::new();
    finder.fixed = Some((Section { addr: 0x10_0000, bytes }, None, None));
    let p = Process {
        finder,
        memory: stack_memory(),
        personalities: vec![
            script(F_PERS, CONTINUE_UNWIND, CONTINUE_UNWIND, CONTINUE_UNWIND),
        ],
    };
    let mut ex = UnwindException::new(0, None);
    let ctx = leaf_context();
    let out = _Unwind_RaiseException(&mut ex, &p, &ctx);
    assert_eq!(out.code.0, FATAL_PHASE1_ERROR);
    assert_eq!(out.personality_calls.len(), 1);
}

#[test]
fn raise_over_registered_tables() {
    // The same stack, but the tables come in through the registry
    // instead of the static section.
    let mut bytes: Vec<u8> = Vec::new();
    let cie_f = push_cie(&mut bytes, Some(F_PERS));
    push_fde(&mut bytes, cie_f, 0x3000, 0x100);
    let cie_g = push_cie(&mut bytes, Some(G_PERS));
    push_fde(&mut bytes, cie_g, 0x2000, 0x100);
    let cie_main = push_cie(&mut bytes, Some(MAIN_PERS));
    push_fde(&mut bytes, cie_main, 0x1000, 0x100);
    bytes.extend_from_slice(&0u32.to_le_bytes());
    let mut finder = GlobalFinder::new();
    finder.registry.register(Section { addr: 0x10_0000, bytes });
    let p = Process {
        finder,
        memory: stack_memory(),
        personalities: vec![
            script(F_PERS, CONTINUE_UNWIND, CONTINUE_UNWIND, CONTINUE_UNWIND),
            script(G_PERS, CONTINUE_UNWIND, CONTINUE_UNWIND, CONTINUE_UNWIND),
            script(MAIN_PERS, HANDLER_FOUND, CONTINUE_UNWIND, INSTALL_CONTEXT),
        ],
    };
    let mut ex = UnwindException::new(0, None);
    let ctx = leaf_context();
    let out = _Unwind_RaiseException(&mut ex, &p, &ctx);
    assert_eq!(out.code.0, INSTALL_CONTEXT);
    assert_eq!(out.install.unwrap().get(SP), 0x8020);
}

#[test]
fn unwind_action_flags() {
    assert_eq!(UnwindAction::empty().0, 0);
    let a = UnwindAction(CLEANUP_PHASE).bitor(UnwindAction(HANDLER_FRAME));
    assert_eq!(a.0, CLEANUP_PHASE | HANDLER_FRAME);
    assert!(a.contains(UnwindAction(HANDLER_FRAME)));
    assert!(!a.contains(UnwindAction(SEARCH_PHASE)));
}
