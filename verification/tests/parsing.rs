//! Byte-level tests: LEB128, encoded pointers, CIE/FDE records, the
//! row interpreter, the registry, expressions and the ARM bytecode —
//! with the hand-assembled records cross-checked against gimli.

use unwinding::arch::{Context, RA, SP};
use unwinding::cfi::{unwind_info_for_address, CfaRule, RegisterRule};
use unwinding::eh_frame::{parse_cie, parse_fde, Section};
use unwinding::ehabi::{decode_exidx_entry, find_entry_for_pc, vrs_interpret, IndexEntry, VrsContext};
use unwinding::encoding::{parse_pointer, PointerBases};
use unwinding::find_fde::{GlobalFinder, Registry, __deregister_frame, __register_frame, __register_frame_info};
use unwinding::frame::Frame;
use unwinding::mem::Memory;
use unwinding::phdr::{Phdr, PhdrObject, PT_DYNAMIC, PT_GNU_EH_FRAME, PT_LOAD};
use unwinding::unwinder::{UnwindContext, _Unwind_GetDataRelBase, _Unwind_GetLanguageSpecificData, _Unwind_GetRegionStart, _Unwind_GetTextRelBase};
use unwinding::util::{deref_pointer, read_sleb128, read_uleb128, Pointer};

use gimli::read::{EhFrame, UnwindSection};

fn uleb(mut v: u64, out: &mut Vec<u8>) {
    loop {
        let mut b = (v & 0x7f) as u8;
        v >>= 7;
        if v != 0 {
            b |= 0x80;
        }
        out.push(b);
        if v == 0 {
            break;
        }
    }
}

fn sleb(mut v: i64, out: &mut Vec<u8>) {
    loop {
        let b = (v & 0x7f) as u8;
        v >>= 7;
        let done = (v == 0 && b & 0x40 == 0) || (v == -1 && b & 0x40 != 0);
        out.push(if done { b } else { b | 0x80 });
        if done {
            break;
        }
    }
}

fn push_cie(out: &mut Vec<u8>, personality: Option<u64>) -> usize {
    let offset = out.len();
    let mut body: Vec<u8> = Vec::new();
    body.extend_from_slice(&0u32.to_le_bytes());
    body.push(1);
    match personality {
        Some(_) => body.extend_from_slice(b"zPR\0"),
        None => body.extend_from_slice(b"zR\0"),
    }
    uleb(1, &mut body);
    sleb(-8, &mut body);
    body.push(16);
    let mut aug: Vec<u8> = Vec::new();
    if let Some(p) = personality {
        aug.push(0x00);
        aug.extend_from_slice(&p.to_le_bytes());
    }
    aug.push(0x00);
    uleb(aug.len() as u64, &mut body);
    body.extend_from_slice(&aug);
    body.push(0x0c);
    uleb(7, &mut body);
    uleb(16, &mut body);
    body.push(0x80 | 16);
    uleb(1, &mut body);
    out.extend_from_slice(&(body.len() as u32).to_le_bytes());
    out.extend_from_slice(&body);
    offset
}

fn push_fde(out: &mut Vec<u8>, cie_offset: usize, initial: u64, range: u64) -> usize {
    let offset = out.len();
    let mut body: Vec<u8> = Vec::new();
    let id = (offset + 4 - cie_offset) as u32;
    body.extend_from_slice(&id.to_le_bytes());
    body.extend_from_slice(&initial.to_le_bytes());
    body.extend_from_slice(&range.to_le_bytes());
    uleb(0, &mut body);
    out.extend_from_slice(&(body.len() as u32).to_le_bytes());
    out.extend_from_slice(&body);
    offset
}

#[test]
fn leb128_round_trips() {
    for v in [0u64, 1, 0x7f, 0x80, 0x3fff, 0x4000, u64::MAX] {
        let mut bytes = Vec::new();
        uleb(v, &mut bytes);
        bytes.push(0xaa);
        let (got, next) = read_uleb128(&bytes, 0).expect("decodes");
        assert_eq!(got, v);
        assert_eq!(next, bytes.len() - 1);
    }
    for v in [0i64, 1, -1, 63, 64, -64, -65, i64::MAX, i64::MIN] {
        let mut bytes = Vec::new();
        sleb(v, &mut bytes);
        let (got, next) = read_sleb128(&bytes, 0).expect("decodes");
        assert_eq!(got, v);
        assert_eq!(next, bytes.len());
    }
    // A LEB number cut short fails.
    assert_eq!(read_uleb128(&vec![0x80u8], 0), None);
}

#[test]
fn encoded_pointers() {
    let bases = PointerBases { section: 0x1000, text: Some(0x400), data: Some(0x500), func: None };
    // absptr
    let mut b = 0x1234_5678_9abc_def0u64.to_le_bytes().to_vec();
    assert_eq!(
        parse_pointer(&b, 0, 0x00, bases),
        Some((Pointer::Direct(0x1234_5678_9abc_def0), 8))
    );
    // pcrel | sdata4, negative offset: 0x1000 + 0 (position) - 0x10
    b = (-0x10i32).to_le_bytes().to_vec();
    assert_eq!(parse_pointer(&b, 0, 0x1b, bases), Some((Pointer::Direct(0xff0), 4)));
    // datarel | udata2
    b = 0x30u16.to_le_bytes().to_vec();
    assert_eq!(parse_pointer(&b, 0, 0x32, bases), Some((Pointer::Direct(0x530), 2)));
    // textrel | udata4 | indirect
    b = 0x20u32.to_le_bytes().to_vec();
    assert_eq!(parse_pointer(&b, 0, 0xa3, bases), Some((Pointer::Indirect(0x420), 4)));
    // a missing base fails
    let no_text = PointerBases { text: None, ..bases };
    assert_eq!(parse_pointer(&b, 0, 0x23, no_text), None);
}

#[test]
fn deref_pointer_reads_memory() {
    let mut bytes = vec![0u8; 16];
    bytes[8..16].copy_from_slice(&0xdeadu64.to_le_bytes());
    let mem = Memory::new(0x100, bytes).unwrap();
    assert_eq!(deref_pointer(Pointer::Direct(0x42), &mem), Some(0x42));
    assert_eq!(deref_pointer(Pointer::Indirect(0x108), &mem), Some(0xdead));
    assert_eq!(deref_pointer(Pointer::Indirect(0x200), &mem), None);
}

#[test]
fn cie_and_fde_fields() {
    let mut bytes: Vec<u8> = Vec::new();
    let cie_off = push_cie(&mut bytes, Some(0x777));
    let fde_off = push_fde(&mut bytes, cie_off, 0x4000, 0x80);
    bytes.extend_from_slice(&0u32.to_le_bytes());
    let bases = PointerBases { section: 0x10_0000, text: None, data: None, func: None };
    let cie = parse_cie(&bytes, cie_off, bases).expect("CIE parses");
    assert_eq!(cie.version, 1);
    assert_eq!(cie.code_align, 1);
    assert_eq!(cie.data_align, -8);
    assert_eq!(cie.return_address_register, 16);
    assert_eq!(cie.aug.fde_encoding, 0x00);
    assert_eq!(cie.aug.personality, Some(Pointer::Direct(0x777)));
    assert!(!cie.aug.is_signal_trampoline);
    let fde = parse_fde(&bytes, fde_off, bases).expect("FDE parses");
    assert_eq!(fde.initial_address, 0x4000);
    assert_eq!(fde.address_range, 0x80);
    assert!(fde.contains(0x4000));
    assert!(fde.contains(0x407f));
    assert!(!fde.contains(0x4080));
    // Parsing a CIE where the FDE sits fails, and vice versa.
    assert_eq!(parse_cie(&bytes, fde_off, bases), None);
    assert_eq!(parse_fde(&bytes, cie_off, bases), None);
}

#[test]
fn unwind_row_for_address() {
    let mut bytes: Vec<u8> = Vec::new();
    let cie_off = push_cie(&mut bytes, None);
    // An FDE with its own instructions: after 8 bytes of code the CFA
    // offset grows to 32.
    let offset = bytes.len();
    let mut body: Vec<u8> = Vec::new();
    body.extend_from_slice(&((offset + 4 - cie_off) as u32).to_le_bytes());
    body.extend_from_slice(&0x5000u64.to_le_bytes());
    body.extend_from_slice(&0x100u64.to_le_bytes());
    uleb(0, &mut body);
    body.push(0x40 | 8); // advance_loc 8
    body.push(0x0e); // def_cfa_offset
    uleb(32, &mut body);
    bytes.extend_from_slice(&(body.len() as u32).to_le_bytes());
    bytes.extend_from_slice(&body);
    let fde_off = offset;
    bytes.extend_from_slice(&0u32.to_le_bytes());
    let bases = PointerBases { section: 0x10_0000, text: None, data: None, func: None };
    let fde = parse_fde(&bytes, fde_off, bases).unwrap();
    // Before the advance: the CIE's rules.
    let row = unwind_info_for_address(&bytes, &fde.cie, &fde, 0x5004, bases).unwrap();
    assert_eq!(row.cfa, CfaRule::RegisterAndOffset { register: 7, offset: 16 });
    assert_eq!(row.regs[16], Some(RegisterRule::Offset(-8)));
    assert_eq!(row.regs[0], None);
    // At and past the advance: the new CFA offset.
    let row2 = unwind_info_for_address(&bytes, &fde.cie, &fde, 0x5008, bases).unwrap();
    assert_eq!(row2.cfa, CfaRule::RegisterAndOffset { register: 7, offset: 32 });
}

#[test]
fn frame_unwind_applies_rules() {
    let mut bytes: Vec<u8> = Vec::new();
    let cie_off = push_cie(&mut bytes, None);
    push_fde(&mut bytes, cie_off, 0x6000, 0x100);
    bytes.extend_from_slice(&0u32.to_le_bytes());
    let mut finder = GlobalFinder::new();
    finder.fixed = Some((Section { addr: 0x10_0000, bytes }, None, None));
    let mut stack = vec![0u8; 0x20];
    stack[0x08..0x10].copy_from_slice(&0xabcdu64.to_le_bytes());
    let mem = Memory::new(0x9000, stack).unwrap();
    let mut ctx = Context::zeroed();
    ctx.set(SP, 0x9000);
    ctx.set(RA, 0x6001);
    ctx.set(5, 77);
    let frame = Frame::from_context(&ctx, &finder, &mem).unwrap().expect("a frame");
    assert_eq!(frame.initial_address(), 0x6000);
    let caller = frame.unwind(&ctx, &mem).unwrap();
    // The new stack pointer is the CFA (SP + 16), the return address
    // comes from CFA - 8, untouched registers carry over.
    assert_eq!(caller.get(SP), 0x9010);
    assert_eq!(caller.get(RA), 0xabcd);
    assert_eq!(caller.get(5), 77);
    // A return address of zero ends the walk.
    let mut done = Context::zeroed();
    done.set(RA, 0);
    assert!(Frame::from_context(&done, &finder, &mem).unwrap().is_none());
}

#[test]
fn registry_abi_entry_points() {
    let mut bytes: Vec<u8> = Vec::new();
    let cie_off = push_cie(&mut bytes, None);
    push_fde(&mut bytes, cie_off, 0x7000, 0x100);
    bytes.extend_from_slice(&0u32.to_le_bytes());
    let section = Section { addr: 0x21_0000, bytes };
    let mut reg = Registry::new();
    __register_frame(&mut reg, section.duplicate());
    assert!(reg.find_fde(0x7010).is_some());
    __register_frame_info(&mut reg, section.duplicate(), 0xdead);
    assert_eq!(reg.entries.len(), 2);
    __deregister_frame(&mut reg, 0x21_0000);
    __deregister_frame(&mut reg, 0x21_0000);
    assert!(reg.find_fde(0x7010).is_none());
    assert_eq!(reg.entries.len(), 0);
}

#[test]
fn registry_register_deregister_round_trip() {
    let mut bytes: Vec<u8> = Vec::new();
    let cie_off = push_cie(&mut bytes, None);
    push_fde(&mut bytes, cie_off, 0x7000, 0x100);
    bytes.extend_from_slice(&0u32.to_le_bytes());
    let section = Section { addr: 0x20_0000, bytes };

    let mut reg = Registry::new();
    assert!(reg.find_fde(0x7050).is_none());
    reg.register(section.duplicate());
    let found = reg.find_fde(0x7050).expect("registered region covers the pc");
    assert_eq!(found.fde.initial_address, 0x7000);
    assert!(reg.find_fde(0x7100).is_none());
    reg.deregister(0x20_0000);
    // After the pair of calls the search answers as before.
    assert!(reg.find_fde(0x7050).is_none());
    // Deregistering an absent region is a no-op.
    reg.deregister(0x20_0000);
    assert!(reg.find_fde(0x7050).is_none());
    // A malformed region is dropped silently.
    reg.register(Section { addr: 0x30_0000, bytes: vec![1, 2, 3] });
    assert!(reg.find_fde(0x7050).is_none());
}

#[test]
fn cross_check_records_with_gimli() {
    let mut bytes: Vec<u8> = Vec::new();
    let cie_off = push_cie(&mut bytes, Some(0x777));
    let fde_off = push_fde(&mut bytes, cie_off, 0x4000, 0x80);
    bytes.extend_from_slice(&0u32.to_le_bytes());
    let section_addr = 0x10_0000u64;

    // Our parse.
    let bases = PointerBases { section: section_addr, text: None, data: None, func: None };
    let cie = parse_cie(&bytes, cie_off, bases).unwrap();
    let fde = parse_fde(&bytes, fde_off, bases).unwrap();

    // gimli's parse of the same bytes.
    let eh = EhFrame::new(&bytes, gimli::LittleEndian);
    let gbases = gimli::BaseAddresses::default().set_eh_frame(section_addr);
    let gfde = eh
        .fde_for_address(&gbases, 0x4010, EhFrame::cie_from_offset)
        .expect("gimli finds the FDE");
    assert_eq!(gfde.initial_address(), fde.initial_address);
    assert_eq!(gfde.len(), fde.address_range);
    assert_eq!(
        gfde.personality(),
        Some(gimli::Pointer::Direct(0x777))
    );
    let gcie = gfde.cie();
    assert_eq!(gcie.code_alignment_factor(), cie.code_align);
    assert_eq!(gcie.data_alignment_factor(), cie.data_align);
    assert_eq!(gcie.return_address_register(), gimli::Register(16));
}

#[test]
fn cross_check_row_with_gimli() {
    let mut bytes: Vec<u8> = Vec::new();
    let cie_off = push_cie(&mut bytes, None);
    let fde_off = push_fde(&mut bytes, cie_off, 0x4000, 0x80);
    bytes.extend_from_slice(&0u32.to_le_bytes());
    let section_addr = 0x10_0000u64;

    let bases = PointerBases { section: section_addr, text: None, data: None, func: None };
    let fde = parse_fde(&bytes, fde_off, bases).unwrap();
    let row = unwind_info_for_address(&bytes, &fde.cie, &fde, 0x4010, bases).unwrap();

    let eh = EhFrame::new(&bytes, gimli::LittleEndian);
    let gbases = gimli::BaseAddresses::default().set_eh_frame(section_addr);
    let gfde = eh
        .fde_for_address(&gbases, 0x4010, EhFrame::cie_from_offset)
        .unwrap();
    let mut gctx: Box<gimli::UnwindContext<usize>> = Box::new(gimli::UnwindContext::new());
    let grow = gfde
        .unwind_info_for_address(&eh, &gbases, &mut gctx, 0x4010)
        .expect("gimli decodes the row");
    match grow.cfa() {
        gimli::CfaRule::RegisterAndOffset { register, offset } => {
            assert_eq!(*register, gimli::Register(7));
            assert_eq!(*offset, 16);
            assert_eq!(
                row.cfa,
                CfaRule::RegisterAndOffset { register: 7, offset: 16 }
            );
        }
        _ => panic!("unexpected CFA rule"),
    }
    assert_eq!(
        grow.register(gimli::Register(16)),
        Some(gimli::RegisterRule::Offset(-8))
    );
    assert_eq!(row.regs[16], Some(RegisterRule::Offset(-8)));
}

#[test]
fn expression_evaluation() {
    // breg7 + 8, then deref.
    let mut bytes: Vec<u8> = Vec::new();
    let cie_off = push_cie(&mut bytes, None);
    // An FDE whose CFA is the expression `*(r7 + 8)`.
    let offset = bytes.len();
    let mut body: Vec<u8> = Vec::new();
    body.extend_from_slice(&((offset + 4 - cie_off) as u32).to_le_bytes());
    body.extend_from_slice(&0x5000u64.to_le_bytes());
    body.extend_from_slice(&0x100u64.to_le_bytes());
    uleb(0, &mut body);
    body.push(0x0f); // def_cfa_expression
    let mut expr: Vec<u8> = Vec::new();
    expr.push(0x70 + 7); // breg7
    sleb(8, &mut expr);
    expr.push(0x06); // deref
    uleb(expr.len() as u64, &mut body);
    body.extend_from_slice(&expr);
    bytes.extend_from_slice(&(body.len() as u32).to_le_bytes());
    bytes.extend_from_slice(&body);
    let fde_off = offset;
    bytes.extend_from_slice(&0u32.to_le_bytes());

    let mut finder = GlobalFinder::new();
    finder.fixed = Some((Section { addr: 0x10_0000, bytes }, None, None));
    let mut stack = vec![0u8; 0x20];
    stack[0x08..0x10].copy_from_slice(&0x9018u64.to_le_bytes()); // *(sp+8) = 0x9018
    stack[0x18..0x20].copy_from_slice(&0xfeedu64.to_le_bytes());
    let mem = Memory::new(0x9000, stack).unwrap();
    let mut ctx = Context::zeroed();
    ctx.set(SP, 0x9000);
    ctx.set(RA, 0x5001);
    let frame = Frame::from_context(&ctx, &finder, &mem).unwrap().unwrap();
    assert_eq!(frame.fde_result.fde.offset, fde_off);
    let caller = frame.unwind(&ctx, &mem).unwrap();
    // CFA = *(0x9008) = 0x9018; RA = *(CFA - 8) = *(0x9010)... the RA
    // rule reads CFA + (-8) = 0x9010, which holds zero, ending the
    // walk; SP is the CFA.
    assert_eq!(caller.get(SP), 0x9018);
    assert_eq!(caller.get(RA), 0);
}

#[test]
fn vrs_commands() {
    let mem_bytes: Vec<u8> = (0u32..8)
        .flat_map(|i| (0x100 + i).to_le_bytes())
        .collect();
    let mem = Memory::new(0x1000, mem_bytes).unwrap();
    let ctx = VrsContext { gp: [0; 13], sp: 0x1000, lr: 0x8888, pc: 0 };
    // pop {r4-r6, lr}: 0xa0 | 2 pops r4..r6, bit 8 adds lr.
    let code = vec![0xa0u8 | 0x08 | 2];
    let out = vrs_interpret(&ctx, &code, &mem).expect("interprets");
    assert_eq!(out.gp[4], 0x100);
    assert_eq!(out.gp[5], 0x101);
    assert_eq!(out.gp[6], 0x102);
    assert_eq!(out.lr, 0x103);
    assert_eq!(out.sp, 0x1010);
    // No pop wrote the pc: it comes from the popped lr.
    assert_eq!(out.pc, 0x103);

    // sp adjustment: 0x00 adds 4, 0x40 subtracts 4; 0xb0 finishes.
    let code2 = vec![0x01u8, 0xb0];
    let out2 = vrs_interpret(&ctx, &code2, &mem).unwrap();
    assert_eq!(out2.sp, 0x1000 + 4 + 4 * 1);
    // An unknown command is an error.
    assert_eq!(vrs_interpret(&ctx, &vec![0xc0u8], &mem), None);

    // The two-byte pop: the low byte selects r4..r11, low bit first.
    let code3 = vec![0x80u8, 0xff];
    let out3 = vrs_interpret(&ctx, &code3, &mem).unwrap();
    for i in 0..8u32 {
        assert_eq!(out3.gp[4 + i as usize], 0x100 + i);
    }
    assert_eq!(out3.sp, 0x1020);
    assert_eq!(out3.pc, 0x8888); // no pop wrote the pc: it comes from lr
    // The high nibble reaches r12..r15; its top bit pops the pc and
    // suppresses the default pc <- lr.
    let code4 = vec![0x88u8, 0x00];
    let out4 = vrs_interpret(&ctx, &code4, &mem).unwrap();
    assert_eq!(out4.pc, 0x100);
    assert_eq!(out4.sp, 0x1004);
}

#[test]
fn exidx_data_word_decoding() {
    // CANTUNWIND: the frame marks the end of the stack.
    assert_eq!(decode_exidx_entry(1), Ok(None));
    // An inline entry: personality index zero, three program bytes,
    // the low bytes doubling as the personality argument.
    let (prog, arg) = decode_exidx_entry(0x80b1_b2b3).unwrap().unwrap();
    assert_eq!(prog, vec![0xb1, 0xb2, 0xb3]);
    assert_eq!(arg, 0x00b1_b2b3);
    // A nonzero personality index is outside the inline model.
    assert!(decode_exidx_entry(0x8100_0000).is_err());
    // A table pointer asks for the generic model, which is left open.
    assert!(decode_exidx_entry(0x0000_1000).is_err());
    // A decoded finish-only program runs through the interpreter.
    let (prog2, _) = decode_exidx_entry(0x80b0_b0b0).unwrap().unwrap();
    let mem = Memory::new(0, Vec::new()).unwrap();
    let ctx = VrsContext { gp: [0; 13], sp: 0x100, lr: 0x77, pc: 0 };
    let out = vrs_interpret(&ctx, &prog2, &mem).unwrap();
    assert_eq!(out.pc, 0x77);
    assert_eq!(out.sp, 0x100);
}

#[test]
fn exidx_entry_lookup() {
    // Entries at 0x100, 0x108, 0x110 pointing at functions 0x100+0x20,
    // 0x108+0x20, 0x110+0x20.
    let table = vec![
        IndexEntry { offset: 0x20, data: 0x8000_0001 },
        IndexEntry { offset: 0x20, data: 0x8000_0001 },
        IndexEntry { offset: 0x20, data: 0x8000_0001 },
    ];
    assert_eq!(table[0].addr(0x100), 0x120);
    // pc inside the second function.
    assert_eq!(find_entry_for_pc(&table, 0x100, 0x12c, 0x100, 0x200), Some(1));
    // pc below every entry.
    assert_eq!(find_entry_for_pc(&table, 0x100, 0x100, 0x100, 0x200), None);
    // pc outside the text range.
    assert_eq!(find_entry_for_pc(&table, 0x100, 0x300, 0x100, 0x200), None);
    // A negative prel31 offset: the top half set sign-extends.
    let back = IndexEntry { offset: 0x7fff_fff0, data: 1 };
    assert_eq!(back.addr(0x100), 0x100u32.wrapping_add(0xffff_fff0));
}

#[test]
fn lsda_round_trip() {
    // A CIE asking for an LSDA pointer per FDE ("zLR"), and an FDE
    // carrying one.
    let mut bytes: Vec<u8> = Vec::new();
    let cie_off = bytes.len();
    let mut body: Vec<u8> = Vec::new();
    body.extend_from_slice(&0u32.to_le_bytes());
    body.push(1);
    body.extend_from_slice(b"zLR\0");
    uleb(1, &mut body);
    sleb(-8, &mut body);
    body.push(16);
    let aug: Vec<u8> = vec![0x00, 0x00]; // LSDA encoding, FDE encoding: absptr
    uleb(aug.len() as u64, &mut body);
    body.extend_from_slice(&aug);
    body.push(0x0c);
    uleb(7, &mut body);
    uleb(16, &mut body);
    bytes.extend_from_slice(&(body.len() as u32).to_le_bytes());
    bytes.extend_from_slice(&body);

    let fde_off = bytes.len();
    let mut fbody: Vec<u8> = Vec::new();
    fbody.extend_from_slice(&((fde_off + 4 - cie_off) as u32).to_le_bytes());
    fbody.extend_from_slice(&0x6000u64.to_le_bytes());
    fbody.extend_from_slice(&0x100u64.to_le_bytes());
    uleb(8, &mut fbody); // augmentation data: the 8-byte LSDA pointer
    fbody.extend_from_slice(&0xfeed_f00du64.to_le_bytes());
    bytes.extend_from_slice(&(fbody.len() as u32).to_le_bytes());
    bytes.extend_from_slice(&fbody);
    bytes.extend_from_slice(&0u32.to_le_bytes());

    let bases = PointerBases { section: 0x10_0000, text: None, data: None, func: None };
    let cie = parse_cie(&bytes, cie_off, bases).unwrap();
    assert_eq!(cie.aug.lsda_encoding, Some(0x00));
    let fde = parse_fde(&bytes, fde_off, bases).unwrap();
    assert_eq!(fde.lsda, Some(Pointer::Direct(0xfeed_f00d)));

    // Through a frame and the accessor.
    let mut finder = GlobalFinder::new();
    finder.fixed = Some((Section { addr: 0x10_0000, bytes }, None, None));
    let mem = Memory::new(0x9000, vec![0u8; 0x20]).unwrap();
    let mut ctx = Context::zeroed();
    ctx.set(SP, 0x9000);
    ctx.set(RA, 0x6001);
    let frame = Frame::from_context(&ctx, &finder, &mem).unwrap().unwrap();
    assert_eq!(frame.lsda(&mem), 0xfeed_f00d);
    let uc = UnwindContext { frame: Some(frame), ctx };
    assert_eq!(_Unwind_GetLanguageSpecificData(&uc, &mem), 0xfeed_f00d);
    assert_eq!(_Unwind_GetRegionStart(&uc), 0x6000);
}

#[test]
fn phdr_finder_end_to_end() {
    // One loaded object: text at 0x4000..0x6000, dynamic tags at
    // 0x40_0000, `.eh_frame` at 0x40_1000, `.eh_frame_hdr` at
    // 0x40_2000, all inside one modelled memory.
    let mem_base = 0x40_0000u64;
    let mut mem_bytes = vec![0u8; 0x2100];

    // PT_DYNAMIC: an uninteresting tag, then DT_PLTGOT = 0x77_7000,
    // then DT_NULL.
    for (i, (tag, val)) in [(5u64, 0x123u64), (3, 0x77_7000), (0, 0)].iter().enumerate() {
        mem_bytes[i * 16..i * 16 + 8].copy_from_slice(&tag.to_le_bytes());
        mem_bytes[i * 16 + 8..i * 16 + 16].copy_from_slice(&val.to_le_bytes());
    }

    // .eh_frame with two functions.
    let mut ef: Vec<u8> = Vec::new();
    let cie = push_cie(&mut ef, None);
    let fde_a = push_fde(&mut ef, cie, 0x4000, 0x100);
    let fde_b = push_fde(&mut ef, cie, 0x5000, 0x100);
    ef.extend_from_slice(&0u32.to_le_bytes());
    let ef_addr = mem_base + 0x1000;
    mem_bytes[0x1000..0x1000 + ef.len()].copy_from_slice(&ef);

    // .eh_frame_hdr: version 1, absptr frame pointer, udata4 count,
    // udata8 table entries holding absolute addresses.
    let mut hdr: Vec<u8> = vec![1, 0x00, 0x03, 0x04];
    hdr.extend_from_slice(&ef_addr.to_le_bytes());
    hdr.extend_from_slice(&2u32.to_le_bytes());
    hdr.extend_from_slice(&0x4000u64.to_le_bytes());
    hdr.extend_from_slice(&(ef_addr + fde_a as u64).to_le_bytes());
    hdr.extend_from_slice(&0x5000u64.to_le_bytes());
    hdr.extend_from_slice(&(ef_addr + fde_b as u64).to_le_bytes());
    mem_bytes[0x2000..0x2000 + hdr.len()].copy_from_slice(&hdr);

    let mem = Memory::new(mem_base, mem_bytes).unwrap();
    let obj = PhdrObject {
        dlpi_addr: 0,
        phdrs: vec![
            Phdr { p_type: PT_LOAD, p_vaddr: 0x4000, p_memsz: 0x2000 },
            Phdr { p_type: PT_GNU_EH_FRAME, p_vaddr: mem_base + 0x2000, p_memsz: 0x100 },
            Phdr { p_type: PT_DYNAMIC, p_vaddr: mem_base, p_memsz: 0x30 },
        ],
    };
    let mut finder = GlobalFinder::new();
    finder.objects.objects.push(obj);

    // The table finds each function; the got comes from PT_DYNAMIC.
    let hit = finder.find_fde(0x5010, &mem).expect("second function found");
    assert_eq!(hit.fde.initial_address, 0x5000);
    assert_eq!(hit.bases.got, Some(0x77_7000));
    assert_eq!(hit.bases.eh_frame, Some(ef_addr));
    assert_eq!(hit.bases.eh_frame_hdr, Some(mem_base + 0x2000));
    let hit2 = finder.find_fde(0x4010, &mem).expect("first function found");
    assert_eq!(hit2.fde.initial_address, 0x4000);
    // A counter between the functions is covered by neither.
    assert!(finder.find_fde(0x4500, &mem).is_none());
    // A counter outside every PT_LOAD is not searched at all.
    assert!(finder.find_fde(0x9000, &mem).is_none());
}

#[test]
fn remember_and_restore_state() {
    let mut bytes: Vec<u8> = Vec::new();
    let cie_off = push_cie(&mut bytes, None);
    let fde_off = bytes.len();
    let mut body: Vec<u8> = Vec::new();
    body.extend_from_slice(&((fde_off + 4 - cie_off) as u32).to_le_bytes());
    body.extend_from_slice(&0x5000u64.to_le_bytes());
    body.extend_from_slice(&0x100u64.to_le_bytes());
    uleb(0, &mut body);
    body.push(0x40 | 4); // advance_loc 4
    body.push(0x0a); // remember_state
    body.push(0x0e); // def_cfa_offset 48
    uleb(48, &mut body);
    body.push(0x07); // undefined RA
    uleb(16, &mut body);
    body.push(0x40 | 4); // advance_loc 4
    body.push(0x0b); // restore_state
    bytes.extend_from_slice(&(body.len() as u32).to_le_bytes());
    bytes.extend_from_slice(&body);
    bytes.extend_from_slice(&0u32.to_le_bytes());

    let bases = PointerBases { section: 0x10_0000, text: None, data: None, func: None };
    let fde = parse_fde(&bytes, fde_off, bases).unwrap();
    // Inside the remembered window: the changed rules.
    let mid = unwind_info_for_address(&bytes, &fde.cie, &fde, 0x5005, bases).unwrap();
    assert_eq!(mid.cfa, CfaRule::RegisterAndOffset { register: 7, offset: 48 });
    assert_eq!(mid.regs[16], Some(RegisterRule::Undefined));
    // Past the restore: the remembered row again.
    let end = unwind_info_for_address(&bytes, &fde.cie, &fde, 0x5009, bases).unwrap();
    assert_eq!(end.cfa, CfaRule::RegisterAndOffset { register: 7, offset: 16 });
    assert_eq!(end.regs[16], Some(RegisterRule::Offset(-8)));

    // gimli agrees on both rows.
    let eh = EhFrame::new(&bytes, gimli::LittleEndian);
    let gbases = gimli::BaseAddresses::default().set_eh_frame(0x10_0000);
    let gfde = eh.fde_for_address(&gbases, 0x5005, EhFrame::cie_from_offset).unwrap();
    let mut gctx: Box<gimli::UnwindContext<usize>> = Box::new(gimli::UnwindContext::new());
    let gmid = gfde.unwind_info_for_address(&eh, &gbases, &mut gctx, 0x5005).unwrap();
    assert!(matches!(
        gmid.cfa(),
        gimli::CfaRule::RegisterAndOffset { register: gimli::Register(7), offset: 48 }
    ));
    assert_eq!(gmid.register(gimli::Register(16)), Some(gimli::RegisterRule::Undefined));
    let mut gctx2: Box<gimli::UnwindContext<usize>> = Box::new(gimli::UnwindContext::new());
    let gend = gfde.unwind_info_for_address(&eh, &gbases, &mut gctx2, 0x5009).unwrap();
    assert!(matches!(
        gend.cfa(),
        gimli::CfaRule::RegisterAndOffset { register: gimli::Register(7), offset: 16 }
    ));
    assert_eq!(gend.register(gimli::Register(16)), Some(gimli::RegisterRule::Offset(-8)));
}

#[test]
fn register_rule_variants() {
    let mut bytes: Vec<u8> = Vec::new();
    let cie_off = push_cie(&mut bytes, None);
    let fde_off = bytes.len();
    let mut body: Vec<u8> = Vec::new();
    body.extend_from_slice(&((fde_off + 4 - cie_off) as u32).to_le_bytes());
    body.extend_from_slice(&0x5000u64.to_le_bytes());
    body.extend_from_slice(&0x100u64.to_le_bytes());
    uleb(0, &mut body);
    body.push(0x09); // register: r3 takes r5's value
    uleb(3, &mut body);
    uleb(5, &mut body);
    body.push(0x14); // val_offset: r4 = CFA + factored 1 * -8
    uleb(4, &mut body);
    uleb(1, &mut body);
    body.push(0x08); // same_value r6
    uleb(6, &mut body);
    bytes.extend_from_slice(&(body.len() as u32).to_le_bytes());
    bytes.extend_from_slice(&body);
    bytes.extend_from_slice(&0u32.to_le_bytes());

    let mut finder = GlobalFinder::new();
    finder.fixed = Some((Section { addr: 0x10_0000, bytes }, None, None));
    let mut stack = vec![0u8; 0x20];
    stack[0x08..0x10].copy_from_slice(&0x4242u64.to_le_bytes());
    let mem = Memory::new(0x9000, stack).unwrap();
    let mut ctx = Context::zeroed();
    ctx.set(SP, 0x9000);
    ctx.set(RA, 0x5001);
    ctx.set(5, 555);
    ctx.set(6, 666);
    let frame = Frame::from_context(&ctx, &finder, &mem).unwrap().unwrap();
    let caller = frame.unwind(&ctx, &mem).unwrap();
    assert_eq!(caller.get(3), 555); // from r5
    assert_eq!(caller.get(4), 0x9010 - 8); // CFA - 8 as a value
    assert_eq!(caller.get(6), 666); // kept
    assert_eq!(caller.get(RA), 0x4242);
}

#[test]
fn pcrel_encodings_match_gimli() {
    // A CIE whose FDEs use pcrel | sdata4 addresses, as compilers
    // emit them.
    let section_addr = 0x10_0000u64;
    let mut bytes: Vec<u8> = Vec::new();
    let cie_off = bytes.len();
    let mut body: Vec<u8> = Vec::new();
    body.extend_from_slice(&0u32.to_le_bytes());
    body.push(1);
    body.extend_from_slice(b"zR\x00");
    uleb(1, &mut body);
    sleb(-8, &mut body);
    body.push(16);
    uleb(1, &mut body);
    body.push(0x1b); // FDE encoding: pcrel | sdata4
    body.push(0x0c);
    uleb(7, &mut body);
    uleb(16, &mut body);
    bytes.extend_from_slice(&(body.len() as u32).to_le_bytes());
    bytes.extend_from_slice(&body);

    let fde_off = bytes.len();
    let target = 0x0f_8000u64; // below the section, so the offset is negative
    let field_addr = section_addr + (fde_off + 8) as u64;
    let rel = (target as i64 - field_addr as i64) as i32;
    let mut fbody: Vec<u8> = Vec::new();
    fbody.extend_from_slice(&((fde_off + 4 - cie_off) as u32).to_le_bytes());
    fbody.extend_from_slice(&rel.to_le_bytes());
    fbody.extend_from_slice(&0x100i32.to_le_bytes());
    uleb(0, &mut fbody);
    bytes.extend_from_slice(&(fbody.len() as u32).to_le_bytes());
    bytes.extend_from_slice(&fbody);
    bytes.extend_from_slice(&0u32.to_le_bytes());

    let bases = PointerBases { section: section_addr, text: None, data: None, func: None };
    let fde = parse_fde(&bytes, fde_off, bases).unwrap();
    assert_eq!(fde.initial_address, target);
    assert_eq!(fde.address_range, 0x100);

    let eh = EhFrame::new(&bytes, gimli::LittleEndian);
    let gbases = gimli::BaseAddresses::default().set_eh_frame(section_addr);
    let gfde = eh
        .fde_for_address(&gbases, target + 0x10, EhFrame::cie_from_offset)
        .expect("gimli finds the pcrel FDE");
    assert_eq!(gfde.initial_address(), fde.initial_address);
    assert_eq!(gfde.len(), fde.address_range);
}

#[test]
fn version_three_cie() {
    // A version 3 CIE writes its return-address register as LEB128.
    let mut bytes: Vec<u8> = Vec::new();
    let cie_off = bytes.len();
    let mut body: Vec<u8> = Vec::new();
    body.extend_from_slice(&0u32.to_le_bytes());
    body.push(3);
    body.extend_from_slice(b"zR\0");
    uleb(1, &mut body);
    sleb(-8, &mut body);
    uleb(16, &mut body); // return address register, as LEB128
    uleb(1, &mut body);
    body.push(0x00);
    body.push(0x0c);
    uleb(7, &mut body);
    uleb(16, &mut body);
    bytes.extend_from_slice(&(body.len() as u32).to_le_bytes());
    bytes.extend_from_slice(&body);
    let bases = PointerBases { section: 0x10_0000, text: None, data: None, func: None };
    let cie = parse_cie(&bytes, cie_off, bases).expect("version 3 parses");
    assert_eq!(cie.version, 3);
    assert_eq!(cie.return_address_register, 16);
    // An unsupported version is refused.
    let mut bad = bytes.clone();
    bad[cie_off + 8] = 4;
    assert_eq!(parse_cie(&bad, cie_off, bases), None);
}

#[test]
fn malformed_tables_are_errors_not_crashes() {
    // An FDE whose instructions hold an unknown opcode: building the
    // frame fails cleanly.
    let mut bytes: Vec<u8> = Vec::new();
    let cie_off = push_cie(&mut bytes, None);
    let fde_off = bytes.len();
    let mut body: Vec<u8> = Vec::new();
    body.extend_from_slice(&((fde_off + 4 - cie_off) as u32).to_le_bytes());
    body.extend_from_slice(&0x5000u64.to_le_bytes());
    body.extend_from_slice(&0x100u64.to_le_bytes());
    uleb(0, &mut body);
    body.push(0x3f); // an opcode outside the supported set
    bytes.extend_from_slice(&(body.len() as u32).to_le_bytes());
    bytes.extend_from_slice(&body);
    bytes.extend_from_slice(&0u32.to_le_bytes());
    let mut finder = GlobalFinder::new();
    finder.fixed = Some((Section { addr: 0x10_0000, bytes }, None, None));
    let mem = Memory::new(0x9000, vec![0u8; 0x20]).unwrap();
    let mut ctx = Context::zeroed();
    ctx.set(SP, 0x9000);
    ctx.set(RA, 0x5001);
    assert!(Frame::from_context(&ctx, &finder, &mem).is_err());
}

#[test]
fn unreadable_stack_fails_the_unwind() {
    let mut bytes: Vec<u8> = Vec::new();
    let cie_off = push_cie(&mut bytes, None);
    push_fde(&mut bytes, cie_off, 0x6000, 0x100);
    bytes.extend_from_slice(&0u32.to_le_bytes());
    let mut finder = GlobalFinder::new();
    finder.fixed = Some((Section { addr: 0x10_0000, bytes }, None, None));
    // The RA rule reads CFA - 8 = 0x9008, but memory ends at 0x9008.
    let mem = Memory::new(0x9000, vec![0u8; 8]).unwrap();
    let mut ctx = Context::zeroed();
    ctx.set(SP, 0x9000);
    ctx.set(RA, 0x6001);
    let frame = Frame::from_context(&ctx, &finder, &mem).unwrap().unwrap();
    assert!(frame.unwind(&ctx, &mem).is_err());
}

#[test]
fn signal_trampoline_flag() {
    let mut bytes: Vec<u8> = Vec::new();
    let cie_off = bytes.len();
    let mut body: Vec<u8> = Vec::new();
    body.extend_from_slice(&0u32.to_le_bytes());
    body.push(1);
    body.extend_from_slice(b"zRS\0");
    uleb(1, &mut body);
    sleb(-8, &mut body);
    body.push(16);
    uleb(1, &mut body);
    body.push(0x00);
    body.push(0x0c);
    uleb(7, &mut body);
    uleb(16, &mut body);
    bytes.extend_from_slice(&(body.len() as u32).to_le_bytes());
    bytes.extend_from_slice(&body);
    let bases = PointerBases { section: 0x10_0000, text: None, data: None, func: None };
    let cie = parse_cie(&bytes, cie_off, bases).expect("parses");
    assert!(cie.aug.is_signal_trampoline);
}

#[test]
fn rel_base_accessors() {
    // A frame whose tables carry text and got bases.
    let mut bytes: Vec<u8> = Vec::new();
    let cie_off = push_cie(&mut bytes, None);
    push_fde(&mut bytes, cie_off, 0x6000, 0x100);
    bytes.extend_from_slice(&0u32.to_le_bytes());
    let mut finder = GlobalFinder::new();
    finder.fixed = Some((Section { addr: 0x10_0000, bytes }, Some(0x6000), Some(0x7700)));
    let mem = Memory::new(0x9000, vec![0u8; 0x20]).unwrap();
    let mut ctx = Context::zeroed();
    ctx.set(SP, 0x9000);
    ctx.set(RA, 0x6001);
    let frame = Frame::from_context(&ctx, &finder, &mem).unwrap().unwrap();
    assert_eq!(frame.bases().text, Some(0x6000));
    assert_eq!(frame.bases().got, Some(0x7700));
    let uc = UnwindContext { frame: Some(frame), ctx };
    assert_eq!(_Unwind_GetTextRelBase(&uc), 0x6000);
    assert_eq!(_Unwind_GetDataRelBase(&uc), 0x7700);
}

#[test]
fn memory_reads() {
    let mem = Memory::new(0x10, vec![1, 2, 3, 4, 5, 6, 7, 8, 9]).unwrap();
    assert_eq!(mem.read_u8(0x10), Some(1));
    assert_eq!(mem.read_u8(0x18), Some(9));
    assert_eq!(mem.read_u8(0x19), None);
    assert_eq!(mem.read_word(0x10), Some(0x0807060504030201));
    assert_eq!(mem.read_word(0x11), Some(0x0908070605040302));
    assert_eq!(mem.read_word(0x12), None);
    assert_eq!(mem.read_word32(0x10), Some(0x04030201));
}
