//! The program-header FDE finder.
//!
//! The loader exposes, per loaded object, its address bias and program
//! headers.  For the object whose `PT_LOAD` segment covers the queried
//! counter, the finder locates `PT_GNU_EH_FRAME`, reads the `.got`
//! address out of `PT_DYNAMIC`, parses the `.eh_frame_hdr` it points
//! at, and looks the counter up in the header's binary-search table,
//! falling back to a linear scan of `.eh_frame` when the header has no
//! table or the table misses.

use crate::eh_frame::{parse_fde, spec_parse_fde, spec_scan_records, Fde, Section};
use crate::encoding::{parse_pointer, spec_parse_pointer, PointerBases};
use crate::find_fde::BaseAddresses;
use crate::mem::Memory;
use crate::util::{deref_pointer, spec_deref_pointer, Pointer};
use vstd::prelude::*;

verus! {

/// Value of `PT_LOAD`.
pub const PT_LOAD: u32 = 1;

/// Value of `PT_DYNAMIC`.
pub const PT_DYNAMIC: u32 = 2;

/// Value of `PT_GNU_EH_FRAME`.
pub const PT_GNU_EH_FRAME: u32 = 0x6474_e550;

/// One program header of a loaded object.
#[derive(Clone, Copy, PartialEq, Eq, Structural, Debug)]
pub struct Phdr {
    /// The segment type.
    pub p_type: u32,
    /// The segment's unbiased virtual address.
    pub p_vaddr: u64,
    /// The segment's size in memory.
    pub p_memsz: u64,
}

/// One loaded object, as the loader enumerates it.
#[derive(Clone, PartialEq, Eq, Debug)]
pub struct PhdrObject {
    /// The object's load bias.
    pub dlpi_addr: u64,
    /// Its program headers.
    pub phdrs: Vec<Phdr>,
}

/// The scan of one object's headers: the `PT_LOAD` range covering
/// `pc`, the `PT_GNU_EH_FRAME` address, and the `PT_DYNAMIC` address,
/// each the last one seen.
pub open spec fn spec_phdr_scan(
    phdrs: Seq<Phdr>,
    bias: u64,
    pc: int,
    text: Option<(u64, u64)>,
    hdr: Option<u64>,
    dynamic: Option<u64>,
) -> (Option<(u64, u64)>, Option<u64>, Option<u64>)
    decreases phdrs.len(),
{
    if phdrs.len() == 0 {
        (text, hdr, dynamic)
    } else {
        let p = phdrs[0];
        let start = bias.wrapping_add(p.p_vaddr);
        let rest = phdrs.drop_first();
        if p.p_type == PT_LOAD {
            let endv = start.wrapping_add(p.p_memsz);
            if start <= pc < endv {
                spec_phdr_scan(rest, bias, pc, Some((start, endv)), hdr, dynamic)
            } else {
                spec_phdr_scan(rest, bias, pc, text, hdr, dynamic)
            }
        } else if p.p_type == PT_GNU_EH_FRAME {
            spec_phdr_scan(rest, bias, pc, text, Some(start), dynamic)
        } else if p.p_type == PT_DYNAMIC {
            spec_phdr_scan(rest, bias, pc, text, hdr, Some(start))
        } else {
            spec_phdr_scan(rest, bias, pc, text, hdr, dynamic)
        }
    }
}

/// The `DT_PLTGOT` value found by walking the dynamic tags at `tags`:
/// pairs of words, ended by a zero tag; the scan also ends, with no
/// result, at the first unreadable pair.
pub open spec fn spec_got_scan(mem: &Memory, tags: int) -> Option<u64>
    decreases mem.base + mem.bytes@.len() - tags,
{
    if !mem.spec_range_in(tags, 16) || tags < mem.base {
        None
    } else {
        let tag = mem.spec_word_at(tags);
        let val = mem.spec_word_at(tags + 8);
        if tag == 0 {
            None
        } else if tag == 3 {
            Some(val as u64)
        } else {
            spec_got_scan(mem, tags + 16)
        }
    }
}

/// The bytes of memory from `addr` to its end, with `addr`: the model
/// of taking the largest possible slice at an address.
pub open spec fn spec_tail(mem: &Memory, addr: u64) -> Option<Seq<u8>> {
    if mem.base <= addr <= mem.base + mem.bytes@.len() {
        Some(mem.bytes@.subrange(addr - mem.base, mem.bytes@.len() as int))
    } else {
        None
    }
}

/// The size in bytes of a table entry half, fixed by the encoding's
/// format; `None` for a variable-length or unknown format.
pub open spec fn spec_entry_size(enc: u8) -> Option<int> {
    let f = enc & 0x0f;
    if f == 0x02 || f == 0x0a {
        Some(2)
    } else if f == 0x03 || f == 0x0b {
        Some(4)
    } else if f == 0x00 || f == 0x04 || f == 0x0c {
        Some(8)
    } else {
        None
    }
}

/// Entry `i` of the search table: the function start and the FDE
/// address, both decoded with the table encoding and required to be
/// direct.
pub open spec fn spec_table_entry(
    s: Seq<u8>,
    tstart: int,
    esize: int,
    enc: u8,
    bases: PointerBases,
    i: int,
) -> Option<(u64, u64)> {
    let pos = tstart + 2 * esize * i;
    match spec_parse_pointer(s, pos, enc, bases) {
        Some((Pointer::Direct(start), _)) => match spec_parse_pointer(
            s,
            pos + esize,
            enc,
            bases,
        ) {
            Some((Pointer::Direct(fptr), _)) => Some((start, fptr)),
            _ => None,
        },
        _ => None,
    }
}

/// Binary search over `[lo, hi)` of the sorted table for the last
/// entry whose function start is at or below `pc`: the index one
/// below the lower bound of the strictly-greater entries.  `None`
/// when every entry is above `pc` or an entry fails to decode.
pub open spec fn spec_bsearch(
    s: Seq<u8>,
    tstart: int,
    esize: int,
    enc: u8,
    bases: PointerBases,
    pc: int,
    lo: int,
    hi: int,
) -> Option<int>
    decreases hi - lo,
{
    if lo >= hi {
        if lo == 0 {
            None
        } else {
            Some(lo - 1)
        }
    } else {
        let mid = lo + (hi - lo) / 2;
        match spec_table_entry(s, tstart, esize, enc, bases, mid) {
            None => None,
            Some((start, _)) => if start <= pc {
                spec_bsearch(s, tstart, esize, enc, bases, pc, mid + 1, hi)
            } else {
                spec_bsearch(s, tstart, esize, enc, bases, pc, lo, mid)
            },
        }
    }
}

/// The FDE the search table yields for `pc`: the found entry's FDE
/// address translated to an offset in `.eh_frame` and parsed there,
/// accepted only if it covers `pc`.
pub open spec fn spec_table_lookup(
    s: Seq<u8>,
    tstart: int,
    esize: int,
    enc: u8,
    bases: PointerBases,
    count: int,
    pc: int,
    ef_bytes: Seq<u8>,
    ef_addr: u64,
    ef_bases: PointerBases,
) -> Option<Fde> {
    match spec_bsearch(s, tstart, esize, enc, bases, pc, 0, count) {
        None => None,
        Some(i) => match spec_table_entry(s, tstart, esize, enc, bases, i) {
            None => None,
            Some((_, fptr)) => if fptr < ef_addr {
                None
            } else {
                match spec_parse_fde(ef_bytes, fptr - ef_addr, ef_bases) {
                    None => None,
                    Some(f) => if f.spec_contains(pc) {
                        Some(f)
                    } else {
                        None
                    },
                }
            },
        },
    }
}

/// What the finder yields for one object: the FDE, the bases, and the
/// view of the `.eh_frame` section it lies in.
#[verifier::opaque]
pub open spec fn spec_phdr_find(obj: PhdrObject, pc: int, mem: &Memory) -> Option<
    (Fde, BaseAddresses, (u64, Seq<u8>)),
> {
    let scanned = spec_phdr_scan(obj.phdrs@, obj.dlpi_addr, pc, None, None, None);
    match (scanned.0, scanned.1) {
        (Some(text), Some(hdr_addr)) => {
            let got = match scanned.2 {
                Some(d) => spec_got_scan(mem, d as int),
                None => None,
            };
            match spec_tail(mem, hdr_addr) {
                None => None,
                Some(hs) => if hs.len() < 4 || hs[0] != 1 {
                    None
                } else {
                    let ptr_enc = hs[1];
                    let count_enc = hs[2];
                    let table_enc = hs[3];
                    let hdr_bases = PointerBases {
                        section: hdr_addr,
                        text: Some(text.0),
                        data: Some(hdr_addr),
                        func: None,
                    };
                    match spec_parse_pointer(hs, 4, ptr_enc, hdr_bases) {
                        None => None,
                        Some((efp, p2)) => match spec_deref_pointer(efp, mem) {
                            None => None,
                            Some(ef_addr) => match spec_tail(mem, ef_addr as u64) {
                                None => None,
                                Some(ef_bytes) => {
                                    let ef_bases = PointerBases {
                                        section: ef_addr as u64,
                                        text: Some(text.0),
                                        data: got,
                                        func: None,
                                    };
                                    let bases = BaseAddresses {
                                        text: Some(text.0),
                                        got,
                                        eh_frame: Some(ef_addr as u64),
                                        eh_frame_hdr: Some(hdr_addr),
                                    };
                                    let by_table: Option<Fde> = if count_enc == 0xff || table_enc
                                        == 0xff {
                                        None
                                    } else {
                                        match spec_parse_pointer(
                                            hs,
                                            p2,
                                            count_enc & 0x0f,
                                            hdr_bases,
                                        ) {
                                            Some((Pointer::Direct(count), p3)) => match spec_entry_size(
                                                table_enc,
                                            ) {
                                                Some(esize) => spec_table_lookup(
                                                    hs,
                                                    p3,
                                                    esize,
                                                    table_enc,
                                                    hdr_bases,
                                                    count as int,
                                                    pc,
                                                    ef_bytes,
                                                    ef_addr as u64,
                                                    ef_bases,
                                                ),
                                                None => None,
                                            },
                                            _ => None,
                                        }
                                    };
                                    match by_table {
                                        Some(f) => Some(
                                            (f, bases, (ef_addr as u64, ef_bytes)),
                                        ),
                                        None => match spec_scan_records(
                                            ef_bytes,
                                            0,
                                            pc,
                                            ef_bases,
                                        ) {
                                            Some(f) => Some(
                                                (f, bases, (ef_addr as u64, ef_bytes)),
                                            ),
                                            None => None,
                                        },
                                    }
                                },
                            },
                        },
                    }
                },
            }
        },
        _ => None,
    }
}

/// Exec twin of [`spec_phdr_scan`].
fn phdr_scan(phdrs: &Vec<Phdr>, bias: u64, pc: u64) -> (r: (
    Option<(u64, u64)>,
    Option<u64>,
    Option<u64>,
))
    ensures
        r == spec_phdr_scan(phdrs@, bias, pc as int, None, None, None),
{
    let mut text: Option<(u64, u64)> = None;
    let mut hdr: Option<u64> = None;
    let mut dynamic: Option<u64> = None;
    let mut i: usize = 0;
    proof {
        assert(phdrs@.skip(0) =~= phdrs@);
    }
    while i < phdrs.len()
        invariant
            i <= phdrs@.len(),
            spec_phdr_scan(phdrs@, bias, pc as int, None, None, None) == spec_phdr_scan(
                phdrs@.skip(i as int),
                bias,
                pc as int,
                text,
                hdr,
                dynamic,
            ),
        decreases phdrs@.len() - i,
    {
        proof {
            assert(phdrs@.skip(i as int)[0] == phdrs@[i as int]);
            assert(phdrs@.skip(i as int).drop_first() =~= phdrs@.skip(i + 1));
        }
        let p = phdrs[i];
        let start = bias.wrapping_add(p.p_vaddr);
        if p.p_type == PT_LOAD {
            let endv = start.wrapping_add(p.p_memsz);
            if start <= pc && pc < endv {
                text = Some((start, endv));
            }
        } else if p.p_type == PT_GNU_EH_FRAME {
            hdr = Some(start);
        } else if p.p_type == PT_DYNAMIC {
            dynamic = Some(start);
        }
        i = i + 1;
    }
    (text, hdr, dynamic)
}

/// Exec twin of [`spec_got_scan`].
fn got_scan(mem: &Memory, tags: u64) -> (r: Option<u64>)
    requires
        mem.wf(),
    ensures
        r == spec_got_scan(mem, tags as int),
    decreases mem.base + mem.bytes@.len() - tags,
{
    if tags > u64::MAX - 15 {
        proof {
            assert(spec_got_scan(mem, tags as int) is None);
        }
        return None;
    }
    let tag = match mem.read_word(tags) {
        Some(t) => t,
        None => {
            proof {
                assert(spec_got_scan(mem, tags as int) is None);
            }
            return None;
        },
    };
    let val = match mem.read_word(tags + 8) {
        Some(v) => v,
        None => {
            proof {
                assert(spec_got_scan(mem, tags as int) is None);
            }
            return None;
        },
    };
    if tag == 0 {
        None
    } else if tag == 3 {
        Some(val)
    } else if tags > u64::MAX - 16 {
        proof {
            reveal_with_fuel(spec_got_scan, 2);
            assert(!mem.spec_range_in(tags + 16, 16));
        }
        None
    } else {
        got_scan(mem, tags + 16)
    }
}

/// Copies the memory from `addr` to its end: the model of taking the
/// largest possible slice at an address.
fn tail_bytes(mem: &Memory, addr: u64) -> (r: Option<Vec<u8>>)
    requires
        mem.wf(),
    ensures
        match r {
            Some(v) => spec_tail(mem, addr) == Some(v@),
            None => spec_tail(mem, addr) is None,
        },
{
    if addr < mem.base {
        return None;
    }
    let off = addr - mem.base;
    if off > mem.bytes.len() as u64 {
        return None;
    }
    let start = off as usize;
    let mut out: Vec<u8> = Vec::new();
    let mut i: usize = start;
    while i < mem.bytes.len()
        invariant
            start <= i <= mem.bytes@.len(),
            out@ =~= mem.bytes@.subrange(start as int, i as int),
        decreases mem.bytes@.len() - i,
    {
        out.push(mem.bytes[i]);
        i = i + 1;
    }
    proof {
        assert(out@ =~= mem.bytes@.subrange(start as int, mem.bytes@.len() as int));
    }
    Some(out)
}

/// Exec twin of [`spec_table_entry`].
fn table_entry(s: &Vec<u8>, tstart: usize, esize: usize, enc: u8, bases: PointerBases, i: u64) -> (r:
    Option<(u64, u64)>)
    requires
        esize <= 8,
        spec_entry_size(enc) == Some(esize as int),
    ensures
        r == spec_table_entry(s@, tstart as int, esize as int, enc, bases, i as int),
{
    proof {
        assert((2 * (esize as int)) * (i as int) <= 0x10_0000_0000_0000_0000int)
            by (nonlinear_arith)
            requires
                0 <= esize <= 8,
                0 <= i <= 0xffff_ffff_ffff_ffffu64,
        ;
    }
    let pos128: u128 = tstart as u128 + 2 * (esize as u128) * (i as u128);
    if pos128 + (esize as u128) > s.len() as u128 {
        proof {
            lemma_fixed_pointer_oob(s@, tstart as int + 2 * esize * i, enc, bases);
        }
        return None;
    }
    let pos = pos128 as usize;
    match parse_pointer(s, pos, enc, bases) {
        Some((Pointer::Direct(start), _)) => match parse_pointer(s, pos + esize, enc, bases) {
            Some((Pointer::Direct(fptr), _)) => Some((start, fptr)),
            _ => None,
        },
        _ => None,
    }
}

/// Exec twin of [`spec_bsearch`].
fn bsearch(
    s: &Vec<u8>,
    tstart: usize,
    esize: usize,
    enc: u8,
    bases: PointerBases,
    pc: u64,
    lo: u64,
    hi: u64,
) -> (r: Option<u64>)
    requires
        esize <= 8,
        spec_entry_size(enc) == Some(esize as int),
    ensures
        match r {
            Some(i) => spec_bsearch(
                s@,
                tstart as int,
                esize as int,
                enc,
                bases,
                pc as int,
                lo as int,
                hi as int,
            ) == Some(i as int),
            None => spec_bsearch(
                s@,
                tstart as int,
                esize as int,
                enc,
                bases,
                pc as int,
                lo as int,
                hi as int,
            ) is None,
        },
    decreases hi - lo,
{
    if lo >= hi {
        if lo == 0 {
            return None;
        }
        return Some(lo - 1);
    }
    let mid = lo + (hi - lo) / 2;
    match table_entry(s, tstart, esize, enc, bases, mid) {
        None => None,
        Some((start, _)) => if start <= pc {
            bsearch(s, tstart, esize, enc, bases, pc, mid + 1, hi)
        } else {
            bsearch(s, tstart, esize, enc, bases, pc, lo, mid)
        },
    }
}

/// Exec twin of [`spec_table_lookup`].
#[verifier::rlimit(100)]
fn table_lookup(
    s: &Vec<u8>,
    tstart: usize,
    esize: usize,
    enc: u8,
    bases: PointerBases,
    count: u64,
    pc: u64,
    ef: &Section,
    ef_bases: PointerBases,
) -> (r: Option<Fde>)
    requires
        esize <= 8,
        spec_entry_size(enc) == Some(esize as int),
    ensures
        r == spec_table_lookup(
            s@,
            tstart as int,
            esize as int,
            enc,
            bases,
            count as int,
            pc as int,
            ef.bytes@,
            ef.addr,
            ef_bases,
        ),
{
    let i = match bsearch(s, tstart, esize, enc, bases, pc, 0, count) {
        Some(i) => i,
        None => {
            return None;
        },
    };
    let (_, fptr) = match table_entry(s, tstart, esize, enc, bases, i) {
        Some(e) => e,
        None => {
            return None;
        },
    };
    if fptr < ef.addr {
        return None;
    }
    let off128 = (fptr - ef.addr) as u128;
    if off128 > ef.bytes.len() as u128 {
        proof {
            crate::eh_frame::lemma_parse_fde_oob(ef.bytes@, fptr - ef.addr, ef_bases);
        }
        return None;
    }
    let f = match parse_fde(&ef.bytes, (fptr - ef.addr) as usize, ef_bases) {
        Some(f) => f,
        None => {
            return None;
        },
    };
    if f.contains(pc) {
        Some(f)
    } else {
        None
    }
}

/// The program-header sub-finder: the loaded objects, in the
/// loader's order.
#[derive(PartialEq, Eq, Debug)]
pub struct PhdrFinder {
    /// The loaded objects, as the loader enumerates them.
    pub objects: Vec<PhdrObject>,
}

/// What the program-header sub-finder yields for `pc`: the first
/// object that finds an FDE wins.
pub open spec fn spec_objects_find(objs: Seq<PhdrObject>, pc: int, mem: &Memory) -> Option<
    (Fde, BaseAddresses, (u64, Seq<u8>)),
>
    decreases objs.len(),
{
    if objs.len() == 0 {
        None
    } else {
        match spec_phdr_find(objs[0], pc, mem) {
            Some(r) => Some(r),
            None => spec_objects_find(objs.drop_first(), pc, mem),
        }
    }
}

impl PhdrFinder {
    /// A sub-finder that knows of no objects.
    pub fn new() -> (r: PhdrFinder)
        ensures
            r.objects@.len() == 0,
    {
        PhdrFinder { objects: Vec::new() }
    }

    /// Searches the objects in the loader's order; the first hit
    /// wins.
    pub fn find_fde(&self, pc: u64, mem: &Memory) -> (r: Option<crate::find_fde::FDESearchResult>)
        requires
            mem.wf(),
        ensures
            match r {
                Some(res) => spec_objects_find(self.objects@, pc as int, mem) == Some(
                    (res.fde, res.bases, res.eh_frame@),
                ),
                None => spec_objects_find(self.objects@, pc as int, mem) is None,
            },
    {
        let mut i: usize = 0;
        proof {
            assert(self.objects@.skip(0) =~= self.objects@);
        }
        while i < self.objects.len()
            invariant
                mem.wf(),
                i <= self.objects@.len(),
                spec_objects_find(self.objects@, pc as int, mem) == spec_objects_find(
                    self.objects@.skip(i as int),
                    pc as int,
                    mem,
                ),
            decreases self.objects@.len() - i,
        {
            proof {
                assert(self.objects@.skip(i as int)[0] == self.objects@[i as int]);
                assert(self.objects@.skip(i as int).drop_first() =~= self.objects@.skip(i + 1));
            }
            if let Some(res) = phdr_find(&self.objects[i], pc, mem) {
                proof {
                    assert(spec_objects_find(self.objects@.skip(i as int), pc as int, mem) == Some(
                        (res.fde, res.bases, res.eh_frame@),
                    ));
                }
                return Some(res);
            }
            i = i + 1;
        }
        proof {
            assert(self.objects@.skip(self.objects@.len() as int).len() == 0);
        }
        None
    }
}

/// Whatever the object search returns covers the queried counter.
pub proof fn lemma_objects_find_covers(objs: Seq<PhdrObject>, pc: int, mem: &Memory)
    ensures
        spec_objects_find(objs, pc, mem) matches Some(r) ==> r.0.spec_contains(pc),
    decreases objs.len(),
{
    if objs.len() > 0 {
        lemma_phdr_find_covers(objs[0], pc, mem);
        lemma_objects_find_covers(objs.drop_first(), pc, mem);
    }
}

/// Searches one loaded object for the FDE covering `pc`, through its
/// program headers and its `.eh_frame_hdr`.
#[verifier::rlimit(100)]
pub fn phdr_find(obj: &PhdrObject, pc: u64, mem: &Memory) -> (r: Option<
    crate::find_fde::FDESearchResult,
>)
    requires
        mem.wf(),
    ensures
        match r {
            Some(res) => spec_phdr_find(*obj, pc as int, mem) == Some(
                (res.fde, res.bases, res.eh_frame@),
            ),
            None => spec_phdr_find(*obj, pc as int, mem) is None,
        },
{
    proof {
        reveal(spec_phdr_find);
    }
    let (text_opt, hdr_opt, dyn_opt) = phdr_scan(&obj.phdrs, obj.dlpi_addr, pc);
    let text = match text_opt {
        Some(t) => t,
        None => {
            return None;
        },
    };
    let hdr_addr = match hdr_opt {
        Some(h) => h,
        None => {
            return None;
        },
    };
    let got = match dyn_opt {
        Some(d) => got_scan(mem, d),
        None => None,
    };
    let hs = match tail_bytes(mem, hdr_addr) {
        Some(v) => v,
        None => {
            return None;
        },
    };
    if hs.len() < 4 {
        return None;
    }
    if hs[0] != 1 {
        return None;
    }
    let ptr_enc = hs[1];
    let count_enc = hs[2];
    let table_enc = hs[3];
    let hdr_bases = PointerBases {
        section: hdr_addr,
        text: Some(text.0),
        data: Some(hdr_addr),
        func: None,
    };
    let (efp, p2) = match parse_pointer(&hs, 4, ptr_enc, hdr_bases) {
        Some(p) => p,
        None => {
            return None;
        },
    };
    let ef_addr = match deref_pointer(efp, mem) {
        Some(a) => a,
        None => {
            return None;
        },
    };
    let ef_bytes = match tail_bytes(mem, ef_addr) {
        Some(v) => v,
        None => {
            return None;
        },
    };
    let ef = Section { addr: ef_addr, bytes: ef_bytes };
    let ef_bases = PointerBases {
        section: ef_addr,
        text: Some(text.0),
        data: got,
        func: None,
    };
    let bases = BaseAddresses {
        text: Some(text.0),
        got,
        eh_frame: Some(ef_addr),
        eh_frame_hdr: Some(hdr_addr),
    };
    let by_table: Option<Fde> = if count_enc == 0xff || table_enc == 0xff {
        None
    } else {
        match parse_pointer(&hs, p2, count_enc & 0x0f, hdr_bases) {
            Some((Pointer::Direct(count), p3)) => match entry_size(table_enc) {
                Some(esize) => table_lookup(
                    &hs,
                    p3,
                    esize,
                    table_enc,
                    hdr_bases,
                    count,
                    pc,
                    &ef,
                    ef_bases,
                ),
                None => None,
            },
            _ => None,
        }
    };
    match by_table {
        Some(f) => Some(
            crate::find_fde::FDESearchResult { fde: f, bases, eh_frame: ef },
        ),
        None => {
            match ef.fde_for_address(pc, Some(text.0), got) {
                Some(f) => Some(
                    crate::find_fde::FDESearchResult { fde: f, bases, eh_frame: ef },
                ),
                None => None,
            }
        },
    }
}

/// Whatever one object's search yields covers the queried counter:
/// the table path checks coverage, the linear path only returns
/// covering entries.
pub proof fn lemma_phdr_find_covers(obj: PhdrObject, pc: int, mem: &Memory)
    ensures
        spec_phdr_find(obj, pc, mem) matches Some(r) ==> r.0.spec_contains(pc),
{
    reveal(spec_phdr_find);
    let scanned = spec_phdr_scan(obj.phdrs@, obj.dlpi_addr, pc, None, None, None);
    match (scanned.0, scanned.1) {
        (Some(text), Some(hdr_addr)) => {
            let got = match scanned.2 {
                Some(d) => spec_got_scan(mem, d as int),
                None => None,
            };
            match spec_tail(mem, hdr_addr) {
                None => {},
                Some(hs) => if hs.len() < 4 || hs[0] != 1 {
                } else {
                    let hdr_bases = PointerBases {
                        section: hdr_addr,
                        text: Some(text.0),
                        data: Some(hdr_addr),
                        func: None,
                    };
                    match spec_parse_pointer(hs, 4, hs[1], hdr_bases) {
                        None => {},
                        Some((efp, _)) => match spec_deref_pointer(efp, mem) {
                            None => {},
                            Some(ef_addr) => match spec_tail(mem, ef_addr as u64) {
                                None => {},
                                Some(ef_bytes) => {
                                    let ef_bases = PointerBases {
                                        section: ef_addr as u64,
                                        text: Some(text.0),
                                        data: got,
                                        func: None,
                                    };
                                    crate::eh_frame::lemma_scan_records_covers(
                                        ef_bytes,
                                        0,
                                        pc,
                                        ef_bases,
                                    );
                                },
                            },
                        },
                    }
                },
            }
        },
        _ => {},
    }
}

/// A fixed-size pointer whose bytes run past the section fails to
/// parse.
proof fn lemma_fixed_pointer_oob(s: Seq<u8>, pos: int, enc: u8, bases: PointerBases)
    requires
        spec_entry_size(enc) matches Some(es) && pos + es > s.len(),
    ensures
        spec_parse_pointer(s, pos, enc, bases) is None,
{
}

/// Exec twin of [`spec_entry_size`].
fn entry_size(enc: u8) -> (r: Option<usize>)
    ensures
        match r {
            Some(e) => spec_entry_size(enc) == Some(e as int) && e <= 8,
            None => spec_entry_size(enc) is None,
        },
{
    let f = enc & 0x0f;
    if f == 0x02 || f == 0x0a {
        Some(2)
    } else if f == 0x03 || f == 0x0b {
        Some(4)
    } else if f == 0x00 || f == 0x04 || f == 0x0c {
        Some(8)
    } else {
        None
    }
}

} // verus!
