//! Locating the FDE that covers a program counter.
//!
//! Sub-finders are tried in order, first hit wins: the in-process
//! registry of dynamically registered `.eh_frame` regions, the
//! loader's program headers — which parse `.eh_frame_hdr` and search
//! its table — and finally a compiled-in static section.

use crate::eh_frame::{spec_scan_records, Fde, Section};
use crate::encoding::PointerBases;
use crate::mem::Memory;
use vstd::prelude::*;

verus! {

/// The base addresses used to decode the DWARF pointer encodings of
/// one object's unwind tables.
#[derive(Clone, Copy, PartialEq, Eq, Structural, Debug)]
pub struct BaseAddresses {
    /// Address of the `.text` section.
    pub text: Option<u64>,
    /// Address of the `.got`, the data base for `.eh_frame` pointers.
    pub got: Option<u64>,
    /// Address of the `.eh_frame` section.
    pub eh_frame: Option<u64>,
    /// Address of the `.eh_frame_hdr` section.
    pub eh_frame_hdr: Option<u64>,
}

/// A successful FDE search: the entry, the bases it was decoded with,
/// and the section it came from, from which its CIE and instructions
/// can be read again.
#[derive(Clone, PartialEq, Eq, Debug)]
pub struct FDESearchResult {
    /// The entry covering the queried program counter.
    pub fde: Fde,
    /// The bases the entry's pointers were decoded against.
    pub bases: BaseAddresses,
    /// The `.eh_frame` section holding the entry.
    pub eh_frame: Section,
}

impl View for Section {
    type V = (u64, Seq<u8>);

    open spec fn view(&self) -> (u64, Seq<u8>) {
        (self.addr, self.bytes@)
    }
}

impl Section {
    /// A copy of the section with the same address and bytes.
    pub fn duplicate(&self) -> (r: Section)
        ensures
            r.addr == self.addr,
            r.bytes@ == self.bytes@,
    {
        let bytes = self.bytes.clone();
        proof {
            assert(bytes@ =~= self.bytes@);
        }
        Section { addr: self.addr, bytes }
    }
}

/// One dynamically registered `.eh_frame` region.
#[derive(Clone, PartialEq, Eq, Debug)]
pub struct RegistryEntry {
    /// The registered section; its address is the registration key.
    pub section: Section,
    /// First address any of its FDEs covers.
    pub pc_lo: u64,
    /// One past the last address any of its FDEs covers.
    pub pc_hi: u64,
}

/// The covered range of the records in `s[off..]`, folded over the
/// running bounds `(lo, hi)`: `None` when a record is malformed.
pub open spec fn spec_pc_bounds(s: Seq<u8>, off: int, lo: int, hi: int, bases: PointerBases) -> Option<
    (int, int),
>
    decreases s.len() - off,
{
    if off < 0 || off + 4 > s.len() {
        None
    } else {
        let len4 = crate::encoding::spec_le_value(s, off, 4);
        let end = off + 4 + len4;
        if len4 == 0 {
            Some((lo, hi))
        } else if len4 == 0xffff_ffff || end > s.len() || off + 8 > end {
            None
        } else {
            let id = crate::encoding::spec_le_value(s, off + 4, 4);
            if id == 0 {
                spec_pc_bounds(s, end, lo, hi, bases)
            } else {
                match crate::eh_frame::spec_parse_fde(s, off, bases) {
                    None => None,
                    Some(f) => {
                        let fend = if f.initial_address + f.address_range > u64::MAX {
                            u64::MAX as int
                        } else {
                            f.initial_address + f.address_range
                        };
                        spec_pc_bounds(
                            s,
                            end,
                            if f.initial_address < lo {
                                f.initial_address as int
                            } else {
                                lo
                            },
                            if fend > hi {
                                fend
                            } else {
                                hi
                            },
                            bases,
                        )
                    },
                }
            }
        }
    }
}

/// Exec twin of [`spec_pc_bounds`].
fn pc_bounds(s: &Vec<u8>, off: usize, lo: u64, hi: u64, bases: PointerBases) -> (r: Option<
    (u64, u64),
>)
    ensures
        match r {
            Some(p) => spec_pc_bounds(s@, off as int, lo as int, hi as int, bases) == Some(
                (p.0 as int, p.1 as int),
            ),
            None => spec_pc_bounds(s@, off as int, lo as int, hi as int, bases) is None,
        },
    decreases s@.len() - off,
{
    let slen = s.len();
    if off > slen || slen - off < 4 {
        return None;
    }
    let len4 = match crate::encoding::read_le_value(s, off, 4) {
        Some((v, _)) => v,
        None => {
            return None;
        },
    };
    if len4 == 0 {
        return Some((lo, hi));
    }
    if len4 == 0xffff_ffff || len4 > (slen - off - 4) as u64 || len4 < 4 {
        return None;
    }
    let end = off + 4 + len4 as usize;
    let id = match crate::encoding::read_le_value(s, off + 4, 4) {
        Some((v, _)) => v,
        None => {
            return None;
        },
    };
    if id == 0 {
        return pc_bounds(s, end, lo, hi, bases);
    }
    match crate::eh_frame::parse_fde(s, off, bases) {
        None => None,
        Some(f) => {
            let fend = match f.initial_address.checked_add(f.address_range) {
                Some(v) => v,
                None => u64::MAX,
            };
            let lo2 = if f.initial_address < lo {
                f.initial_address
            } else {
                lo
            };
            let hi2 = if fend > hi {
                fend
            } else {
                hi
            };
            pc_bounds(s, end, lo2, hi2, bases)
        },
    }
}

/// The in-process table of registered `.eh_frame` regions, newest
/// first in search order.
#[derive(PartialEq, Eq, Debug)]
pub struct Registry {
    /// The registered regions, oldest first; searches walk it from the
    /// back.
    pub entries: Vec<RegistryEntry>,
}

/// The pointer bases a registered region is decoded with: only the
/// section address itself is known.
pub open spec fn spec_registry_bases(addr: u64) -> PointerBases {
    PointerBases { section: addr, text: None, data: None, func: None }
}

/// The index of the newest entry registered under `addr`.
pub open spec fn spec_find_key(entries: Seq<RegistryEntry>, addr: u64) -> Option<int>
    decreases entries.len(),
{
    if entries.len() == 0 {
        None
    } else if entries.last().section.addr == addr {
        Some(entries.len() - 1)
    } else {
        spec_find_key(entries.drop_last(), addr)
    }
}

impl Registry {
    /// An empty registry.
    pub fn new() -> (r: Registry)
        ensures
            r.entries@.len() == 0,
    {
        Registry { entries: Vec::new() }
    }

    /// Registers a region: parses its records, computes the union of
    /// the addresses its FDEs cover, and adds it in front of all older
    /// registrations.  A malformed region is dropped silently.
    pub fn register(&mut self, section: Section)
        ensures
            match spec_pc_bounds(
                section.bytes@,
                0,
                u64::MAX as int,
                0,
                spec_registry_bases(section.addr),
            ) {
                Some(b) => final(self).entries@ == old(self).entries@.push(
                    RegistryEntry { section, pc_lo: b.0 as u64, pc_hi: b.1 as u64 },
                ),
                None => final(self).entries@ == old(self).entries@,
            },
    {
        let bases = PointerBases { section: section.addr, text: None, data: None, func: None };
        match pc_bounds(&section.bytes, 0, u64::MAX, 0, bases) {
            Some((lo, hi)) => {
                self.entries.push(RegistryEntry { section, pc_lo: lo, pc_hi: hi });
            },
            None => (),
        }
    }

    /// Removes the newest registration of the region at `addr`; does
    /// nothing if none exists.
    pub fn deregister(&mut self, addr: u64)
        ensures
            match spec_find_key(old(self).entries@, addr) {
                Some(i) => final(self).entries@ == old(self).entries@.remove(i),
                None => final(self).entries@ == old(self).entries@,
            },
    {
        let mut i: usize = self.entries.len();
        while i > 0
            invariant
                i <= self.entries@.len(),
                self.entries@ == old(self).entries@,
                forall|j: int| i <= j < self.entries@.len() ==> self.entries@[j].section.addr != addr,
            decreases i,
        {
            i = i - 1;
            if self.entries[i].section.addr == addr {
                self.entries.remove(i);
                proof {
                    lemma_find_key_at(old(self).entries@, addr, i as int);
                }
                return ;
            }
        }
        proof {
            lemma_find_key_none(self.entries@, addr);
        }
    }

    /// Searches the registered regions, newest first: the first one
    /// whose covered range contains `pc` and holds a matching FDE
    /// wins.
    #[verifier::rlimit(100)]
    pub fn find_fde(&self, pc: u64) -> (r: Option<FDESearchResult>)
        ensures
            match r {
                Some(res) => spec_registry_find(self.entries@, pc as int) == Some(
                    (res.fde, res.bases, res.eh_frame@),
                ),
                None => spec_registry_find(self.entries@, pc as int) is None,
            },
    {
        proof {
            assert(self.entries@.take(self.entries@.len() as int) =~= self.entries@);
        }
        let mut i: usize = self.entries.len();
        while i > 0
            invariant
                i <= self.entries@.len(),
                spec_registry_find(self.entries@, pc as int) == spec_registry_find(
                    self.entries@.take(i as int),
                    pc as int,
                ),
            decreases i,
        {
            i = i - 1;
            proof {
                assert(self.entries@.take(i + 1).drop_last() =~= self.entries@.take(i as int));
                assert(self.entries@.take(i + 1).last() == self.entries@[i as int]);
            }
            let e = &self.entries[i];
            if e.pc_lo <= pc && pc < e.pc_hi {
                match e.section.fde_for_address(pc, None, None) {
                    Some(f) => {
                        return Some(
                            FDESearchResult {
                                fde: f,
                                bases: BaseAddresses {
                                    text: None,
                                    got: None,
                                    eh_frame: Some(e.section.addr),
                                    eh_frame_hdr: None,
                                },
                                eh_frame: e.section.duplicate(),
                            },
                        );
                    },
                    None => (),
                }
            }
        }
        proof {
            assert(self.entries@.take(0) =~= Seq::<RegistryEntry>::empty());
        }
        None
    }
}

/// The registry search over the abstract entry list, newest first:
/// the found entry, the bases, and the view of the section it lies in.
pub open spec fn spec_registry_find(entries: Seq<RegistryEntry>, pc: int) -> Option<
    (Fde, BaseAddresses, (u64, Seq<u8>)),
>
    decreases entries.len(),
{
    if entries.len() == 0 {
        None
    } else {
        let e = entries.last();
        if e.pc_lo <= pc < e.pc_hi {
            match spec_scan_records(e.section.bytes@, 0, pc, e.section.spec_bases(None, None)) {
                Some(f) => Some(
                    (
                        f,
                        BaseAddresses {
                            text: None,
                            got: None,
                            eh_frame: Some(e.section.addr),
                            eh_frame_hdr: None,
                        },
                        e.section@,
                    ),
                ),
                None => spec_registry_find(entries.drop_last(), pc),
            }
        } else {
            spec_registry_find(entries.drop_last(), pc)
        }
    }
}

/// The composite finder: the registry first, then the loader's
/// objects through their program headers, then the compiled-in static
/// section, if one was supplied.
#[derive(PartialEq, Eq, Debug)]
pub struct GlobalFinder {
    /// Dynamically registered regions.
    pub registry: Registry,
    /// The loader's objects, searched through their program headers.
    pub objects: crate::phdr::PhdrFinder,
    /// A compiled-in `.eh_frame`, with the text and got bases to
    /// decode it, for targets whose tables are linked statically.
    pub fixed: Option<(Section, Option<u64>, Option<u64>)>,
}

/// What the composite finder yields for `pc`: the registry first,
/// then the loader's objects, then the static section.
#[verifier::opaque]
pub open spec fn spec_global_find(f: &GlobalFinder, pc: int, mem: &Memory) -> Option<
    (Fde, BaseAddresses, (u64, Seq<u8>)),
> {
    match spec_registry_find(f.registry.entries@, pc) {
        Some(r) => Some(r),
        None => match crate::phdr::spec_objects_find(f.objects.objects@, pc, mem) {
            Some(r) => Some(r),
            None => match f.fixed {
                Some((sec, text, got)) => match spec_scan_records(
                    sec.bytes@,
                    0,
                    pc,
                    sec.spec_bases(text, got),
                ) {
                    Some(fde) => Some(
                        (
                            fde,
                            BaseAddresses {
                                text,
                                got,
                                eh_frame: Some(sec.addr),
                                eh_frame_hdr: None,
                            },
                            sec@,
                        ),
                    ),
                    None => None,
                },
                None => None,
            },
        },
    }
}

impl GlobalFinder {
    /// A finder with nothing registered, no objects and no static
    /// section.
    pub fn new() -> (r: GlobalFinder)
        ensures
            r.registry.entries@.len() == 0,
            r.objects.objects@.len() == 0,
            r.fixed is None,
    {
        GlobalFinder { registry: Registry::new(), objects: crate::phdr::PhdrFinder::new(), fixed: None }
    }

    /// Searches the sub-finders in order; the first hit wins.
    pub fn find_fde(&self, pc: u64, mem: &Memory) -> (r: Option<FDESearchResult>)
        requires
            mem.wf(),
        ensures
            match r {
                Some(res) => spec_global_find(self, pc as int, mem) == Some(
                    (res.fde, res.bases, res.eh_frame@),
                ),
                None => spec_global_find(self, pc as int, mem) is None,
            },
    {
        proof {
            reveal(spec_global_find);
        }
        if let Some(res) = self.registry.find_fde(pc) {
            return Some(res);
        }
        if let Some(res) = self.objects.find_fde(pc, mem) {
            return Some(res);
        }
        match &self.fixed {
            Some((sec, text, got)) => match sec.fde_for_address(pc, *text, *got) {
                Some(fde) => Some(
                    FDESearchResult {
                        fde,
                        bases: BaseAddresses {
                            text: *text,
                            got: *got,
                            eh_frame: Some(sec.addr),
                            eh_frame_hdr: None,
                        },
                        eh_frame: sec.duplicate(),
                    },
                ),
                None => None,
            },
            None => None,
        }
    }
}

/// The composite finder with nothing registered: what the process
/// starts from before any tables are supplied.
pub fn get_finder() -> (r: GlobalFinder)
    ensures
        r.registry.entries@.len() == 0,
        r.objects.objects@.len() == 0,
        r.fixed is None,
{
    GlobalFinder::new()
}

/// Registers the null-terminated record region at `begin`, as the ABI
/// entry point does.
#[allow(non_snake_case)]
pub fn __register_frame(registry: &mut Registry, begin: Section)
    ensures
        match spec_pc_bounds(
            begin.bytes@,
            0,
            u64::MAX as int,
            0,
            spec_registry_bases(begin.addr),
        ) {
            Some(b) => final(registry).entries@ == old(registry).entries@.push(
                RegistryEntry { section: begin, pc_lo: b.0 as u64, pc_hi: b.1 as u64 },
            ),
            None => final(registry).entries@ == old(registry).entries@,
        },
{
    registry.register(begin);
}

/// Registers a region through the variant that also takes an object
/// cookie; the cookie is unused, as in the production runtime.
#[allow(non_snake_case)]
pub fn __register_frame_info(registry: &mut Registry, begin: Section, _obj: u64)
    ensures
        match spec_pc_bounds(
            begin.bytes@,
            0,
            u64::MAX as int,
            0,
            spec_registry_bases(begin.addr),
        ) {
            Some(b) => final(registry).entries@ == old(registry).entries@.push(
                RegistryEntry { section: begin, pc_lo: b.0 as u64, pc_hi: b.1 as u64 },
            ),
            None => final(registry).entries@ == old(registry).entries@,
        },
{
    registry.register(begin);
}

/// Deregisters the region previously registered at `begin`; a no-op
/// when none is present.
#[allow(non_snake_case)]
pub fn __deregister_frame(registry: &mut Registry, begin: u64)
    ensures
        match spec_find_key(old(registry).entries@, begin) {
            Some(i) => final(registry).entries@ == old(registry).entries@.remove(i),
            None => final(registry).entries@ == old(registry).entries@,
        },
{
    registry.deregister(begin);
}

/// The registry's range filter is sound: the bounds computed at
/// registration contain every counter the region's linear search can
/// find, so skipping a region whose range misses the counter never
/// hides a hit.  Counters are call-site addresses, one below a return
/// address, so the top of the address space is excluded.
pub proof fn lemma_pc_bounds_cover(
    s: Seq<u8>,
    off: int,
    lo0: int,
    hi0: int,
    bases: PointerBases,
    pc: int,
)
    requires
        spec_pc_bounds(s, off, lo0, hi0, bases) is Some,
        pc < u64::MAX,
    ensures
        ({
            let b = spec_pc_bounds(s, off, lo0, hi0, bases)->Some_0;
            b.0 <= lo0 && b.1 >= hi0 && (spec_scan_records(s, off, pc, bases) matches Some(f)
                ==> b.0 <= pc < b.1)
        }),
    decreases s.len() - off,
{
    if 0 <= off && off + 4 <= s.len() {
        let len4 = crate::encoding::spec_le_value(s, off, 4);
        let end = off + 4 + len4;
        if !(len4 == 0 || len4 == 0xffff_ffff || end > s.len() || off + 8 > end) {
            let id = crate::encoding::spec_le_value(s, off + 4, 4);
            if id == 0 {
                lemma_pc_bounds_cover(s, end, lo0, hi0, bases, pc);
            } else {
                match crate::eh_frame::spec_parse_fde(s, off, bases) {
                    None => {},
                    Some(f) => {
                        let fend = if f.initial_address + f.address_range > u64::MAX {
                            u64::MAX as int
                        } else {
                            f.initial_address + f.address_range
                        };
                        let lo1 = if f.initial_address < lo0 {
                            f.initial_address as int
                        } else {
                            lo0
                        };
                        let hi1 = if fend > hi0 {
                            fend
                        } else {
                            hi0
                        };
                        lemma_pc_bounds_cover(s, end, lo1, hi1, bases, pc);
                    },
                }
            }
        }
    }
}

/// Registering a region and then deregistering it restores the
/// registry, so `find_fde` answers every query as it did before the
/// pair of calls.  When the registration succeeded, `register` pushed
/// one entry and `deregister` removes exactly it; when the region was
/// malformed and silently dropped, both calls leave the registry
/// unchanged, provided no older registration of the same address was
/// present for `deregister` to take instead.
pub proof fn lemma_register_deregister_roundtrip(entries: Seq<RegistryEntry>, e: RegistryEntry)
    ensures
        spec_find_key(entries.push(e), e.section.addr) == Some(entries.len() as int),
        entries.push(e).remove(entries.len() as int) == entries,
        forall|pc: int|
            #[trigger] spec_registry_find(entries.push(e).remove(entries.len() as int), pc)
                == spec_registry_find(entries, pc),
{
    assert(entries.push(e).last() == e);
    assert(entries.push(e).remove(entries.len() as int) =~= entries);
}

/// Whatever the registry search returns covers the queried counter.
pub proof fn lemma_registry_find_covers(entries: Seq<RegistryEntry>, pc: int)
    ensures
        spec_registry_find(entries, pc) matches Some(r) ==> r.0.spec_contains(pc),
    decreases entries.len(),
{
    if entries.len() > 0 {
        let e = entries.last();
        crate::eh_frame::lemma_scan_records_covers(
            e.section.bytes@,
            0,
            pc,
            e.section.spec_bases(None, None),
        );
        lemma_registry_find_covers(entries.drop_last(), pc);
    }
}

/// Every sub-finder only yields an FDE that covers the queried
/// counter, so the composite does too.
pub proof fn lemma_global_find_covers(f: &GlobalFinder, pc: int, mem: &Memory)
    ensures
        spec_global_find(f, pc, mem) matches Some(r) ==> r.0.spec_contains(pc),
{
    reveal(spec_global_find);
    lemma_registry_find_covers(f.registry.entries@, pc);
    crate::phdr::lemma_objects_find_covers(f.objects.objects@, pc, mem);
    match f.fixed {
        Some((sec, text, got)) => {
            crate::eh_frame::lemma_scan_records_covers(
                sec.bytes@,
                0,
                pc,
                sec.spec_bases(text, got),
            );
        },
        None => {},
    }
}

proof fn lemma_find_key_at(entries: Seq<RegistryEntry>, addr: u64, i: int)
    requires
        0 <= i < entries.len(),
        entries[i].section.addr == addr,
        forall|j: int| i < j < entries.len() ==> entries[j].section.addr != addr,
    ensures
        spec_find_key(entries, addr) == Some(i),
    decreases entries.len(),
{
    if i < entries.len() - 1 {
        assert(entries.last().section.addr != addr);
        lemma_find_key_at(entries.drop_last(), addr, i);
    }
}

proof fn lemma_find_key_none(entries: Seq<RegistryEntry>, addr: u64)
    requires
        forall|j: int| 0 <= j < entries.len() ==> entries[j].section.addr != addr,
    ensures
        spec_find_key(entries, addr) is None,
    decreases entries.len(),
{
    if entries.len() > 0 {
        lemma_find_key_none(entries.drop_last(), addr);
    }
}

} // verus!
