//! Parsing `.eh_frame`: CIE and FDE records.
//!
//! An `.eh_frame` section is a sequence of length-prefixed records.  A
//! record whose id field is zero is a Common Information Entry, shared
//! by a group of functions; any other id is a Frame Description Entry
//! and points back at its CIE.  The subset parsed here is the 32-bit
//! format with version 1 or 3 CIEs and the `z`, `R`, `P`, `L`, `S`
//! augmentations, which is what compilers emit into `.eh_frame`; a
//! record outside the subset is a parse failure.

use crate::encoding::{spec_parse_pointer, parse_pointer, PointerBases};
use crate::util::{
    spec_sleb128,
    spec_uleb128,
    read_sleb128,
    read_uleb128,
    Pointer,
};
use crate::encoding::{read_le_value, spec_le_value};
use vstd::prelude::*;

verus! {

/// A loaded section: its bytes and the address they are mapped at.
#[derive(Clone, PartialEq, Eq, Debug)]
pub struct Section {
    /// The address of the first byte.
    pub addr: u64,
    /// The section contents.
    pub bytes: Vec<u8>,
}

/// What a CIE's augmentation letters configure for its FDEs.
#[derive(Clone, Copy, PartialEq, Eq, Debug)]
pub struct AugState {
    /// Encoding of FDE addresses (`R`); absptr when absent.
    pub fde_encoding: u8,
    /// Encoding of the LSDA pointer in each FDE (`L`).
    pub lsda_encoding: Option<u8>,
    /// The personality routine (`P`).
    pub personality: Option<Pointer>,
    /// Whether the CIE marks a signal trampoline (`S`).
    pub is_signal_trampoline: bool,
}

/// A parsed Common Information Entry.
#[derive(Clone, Copy, PartialEq, Eq, Debug)]
pub struct Cie {
    /// Offset of the record in its section.
    pub offset: usize,
    /// CIE version, 1 or 3.
    pub version: u8,
    /// Code alignment factor.
    pub code_align: u64,
    /// Data alignment factor.
    pub data_align: i64,
    /// DWARF number of the return address register.
    pub return_address_register: u64,
    /// Whether the augmentation string began with `z`, so that FDEs
    /// carry an augmentation data block.
    pub has_aug_data: bool,
    /// The `R`, `L`, `P`, `S` settings.
    pub aug: AugState,
    /// Start of the initial instructions, as a section offset.
    pub instructions_start: usize,
    /// End of the initial instructions (end of the record).
    pub instructions_end: usize,
}

/// A parsed Frame Description Entry together with its CIE.
#[derive(Clone, Copy, PartialEq, Eq, Debug)]
pub struct Fde {
    /// Offset of the record in its section.
    pub offset: usize,
    /// The CIE the record points back at.
    pub cie: Cie,
    /// Address of the first instruction the entry covers.
    pub initial_address: u64,
    /// Number of bytes the entry covers.
    pub address_range: u64,
    /// The language-specific data area pointer, if the CIE asked for
    /// one.
    pub lsda: Option<Pointer>,
    /// Start of the call-frame instructions, as a section offset.
    pub instructions_start: usize,
    /// End of the call-frame instructions (end of the record).
    pub instructions_end: usize,
}

impl Fde {
    /// Whether the entry covers `pc`.
    pub open spec fn spec_contains(&self, pc: int) -> bool {
        self.initial_address <= pc < self.initial_address + self.address_range
    }

    /// Whether the entry covers `pc`.
    pub fn contains(&self, pc: u64) -> (r: bool)
        ensures
            r == self.spec_contains(pc as int),
    {
        self.initial_address <= pc && (pc - self.initial_address) < self.address_range
    }
}

/// The position of the first zero byte at or after `pos`.
pub open spec fn spec_find_nul(s: Seq<u8>, pos: int) -> Option<int>
    decreases s.len() - pos,
{
    if pos < 0 || pos >= s.len() {
        None
    } else if s[pos] == 0 {
        Some(pos)
    } else {
        spec_find_nul(s, pos + 1)
    }
}

/// Finds the first zero byte at or after `pos`.
fn find_nul(s: &Vec<u8>, pos: usize) -> (r: Option<usize>)
    ensures
        match r {
            Some(n) => spec_find_nul(s@, pos as int) == Some(n as int) && pos <= n < s@.len(),
            None => spec_find_nul(s@, pos as int) is None,
        },
    decreases s@.len() - pos,
{
    if pos >= s.len() {
        None
    } else if s[pos] == 0 {
        Some(pos)
    } else {
        find_nul(s, pos + 1)
    }
}

/// Runs the augmentation letters in `s[cpos..cend]` over the
/// augmentation data starting at `dpos`, starting from `st`; yields the
/// final settings and the position just past the data consumed.
pub open spec fn spec_parse_aug(
    s: Seq<u8>,
    cpos: int,
    cend: int,
    dpos: int,
    bases: PointerBases,
    st: AugState,
) -> Option<(AugState, int)>
    decreases cend - cpos,
{
    if cpos >= cend {
        Some((st, dpos))
    } else if cpos < 0 || cpos >= s.len() {
        None
    } else {
        let c = s[cpos];
        if c == 0x4c {
            // 'L'
            if 0 <= dpos < s.len() {
                spec_parse_aug(
                    s,
                    cpos + 1,
                    cend,
                    dpos + 1,
                    bases,
                    AugState { lsda_encoding: Some(s[dpos]), ..st },
                )
            } else {
                None
            }
        } else if c == 0x50 {
            // 'P'
            if 0 <= dpos < s.len() {
                match spec_parse_pointer(s, dpos + 1, s[dpos], bases) {
                    Some((p, n)) => spec_parse_aug(
                        s,
                        cpos + 1,
                        cend,
                        n,
                        bases,
                        AugState { personality: Some(p), ..st },
                    ),
                    None => None,
                }
            } else {
                None
            }
        } else if c == 0x52 {
            // 'R'
            if 0 <= dpos < s.len() {
                spec_parse_aug(
                    s,
                    cpos + 1,
                    cend,
                    dpos + 1,
                    bases,
                    AugState { fde_encoding: s[dpos], ..st },
                )
            } else {
                None
            }
        } else if c == 0x53 {
            // 'S'
            spec_parse_aug(s, cpos + 1, cend, dpos, bases, AugState { is_signal_trampoline: true, ..st })
        } else {
            None
        }
    }
}

/// Exec twin of [`spec_parse_aug`].
fn parse_aug(
    s: &Vec<u8>,
    cpos: usize,
    cend: usize,
    dpos: usize,
    bases: PointerBases,
    st: AugState,
) -> (r: Option<(AugState, usize)>)
    ensures
        match r {
            Some(p) => spec_parse_aug(s@, cpos as int, cend as int, dpos as int, bases, st)
                matches Some(q) && q.0 == p.0 && q.1 == p.1,
            None => spec_parse_aug(s@, cpos as int, cend as int, dpos as int, bases, st) is None,
        },
    decreases cend - cpos,
{
    if cpos >= cend {
        Some((st, dpos))
    } else if cpos >= s.len() {
        None
    } else {
        let c = s[cpos];
        if c == 0x4c {
            if dpos < s.len() {
                parse_aug(
                    s,
                    cpos + 1,
                    cend,
                    dpos + 1,
                    bases,
                    AugState { lsda_encoding: Some(s[dpos]), ..st },
                )
            } else {
                None
            }
        } else if c == 0x50 {
            if dpos < s.len() {
                match parse_pointer(s, dpos + 1, s[dpos], bases) {
                    Some((p, n)) => parse_aug(
                        s,
                        cpos + 1,
                        cend,
                        n,
                        bases,
                        AugState { personality: Some(p), ..st },
                    ),
                    None => None,
                }
            } else {
                None
            }
        } else if c == 0x52 {
            if dpos < s.len() {
                parse_aug(
                    s,
                    cpos + 1,
                    cend,
                    dpos + 1,
                    bases,
                    AugState { fde_encoding: s[dpos], ..st },
                )
            } else {
                None
            }
        } else if c == 0x53 {
            parse_aug(s, cpos + 1, cend, dpos, bases, AugState { is_signal_trampoline: true, ..st })
        } else {
            None
        }
    }
}

/// The augmentation settings of a CIE with an empty augmentation
/// string: absolute FDE addresses, no LSDA, no personality.
pub open spec fn spec_aug_default() -> AugState {
    AugState {
        fde_encoding: 0x00,
        lsda_encoding: None,
        personality: None,
        is_signal_trampoline: false,
    }
}

/// The CIE record at offset `off`: `None` if the record is malformed,
/// is a terminator, is an FDE, or lies outside the parsed subset.
#[verifier::opaque]
pub open spec fn spec_parse_cie(s: Seq<u8>, off: int, bases: PointerBases) -> Option<Cie> {
    if off < 0 || off + 4 > s.len() {
        None
    } else {
        let len4 = spec_le_value(s, off, 4);
        let end = off + 4 + len4;
        if len4 == 0 || len4 == 0xffff_ffff || end > s.len() || off + 9 > end {
            None
        } else if spec_le_value(s, off + 4, 4) != 0 {
            None
        } else {
            let version = s[off + 8];
            if version != 1 && version != 3 {
                None
            } else {
                match spec_find_nul(s, off + 9) {
                    None => None,
                    Some(nul) => if nul >= end {
                        None
                    } else {
                        spec_parse_cie_tail(s, off, off + 9, nul, end, version, bases)
                    },
                }
            }
        }
    }
}

/// The part of a CIE after the augmentation string: alignment factors,
/// return address register, augmentation data, initial instructions.
#[verifier::opaque]
pub open spec fn spec_parse_cie_tail(
    s: Seq<u8>,
    off: int,
    astart: int,
    nul: int,
    end: int,
    version: u8,
    bases: PointerBases,
) -> Option<Cie> {
    match spec_uleb128(s, nul + 1) {
        None => None,
        Some((ca, p2)) => if ca > u64::MAX || p2 > end {
            None
        } else {
            match spec_sleb128(s, p2) {
                None => None,
                Some((da, p3)) => if da < i64::MIN || da > i64::MAX || p3 > end {
                    None
                } else {
                    let ra_read: Option<(int, int)> = if version == 1 {
                        if p3 < end {
                            Some((s[p3] as int, p3 + 1))
                        } else {
                            None
                        }
                    } else {
                        match spec_uleb128(s, p3) {
                            Some((ra, p4)) => if ra <= u64::MAX && p4 <= end {
                                Some((ra as int, p4))
                            } else {
                                None
                            },
                            None => None,
                        }
                    };
                    match ra_read {
                        None => None,
                        Some((ra, p4)) => if astart == nul {
                            Some(
                                Cie {
                                    offset: off as usize,
                                    version,
                                    code_align: ca as u64,
                                    data_align: da as i64,
                                    return_address_register: ra as u64,
                                    has_aug_data: false,
                                    aug: spec_aug_default(),
                                    instructions_start: p4 as usize,
                                    instructions_end: end as usize,
                                },
                            )
                        } else if s[astart] == 0x7a {
                            match spec_uleb128(s, p4) {
                                None => None,
                                Some((alen, p5)) => if p5 + alen > end {
                                    None
                                } else {
                                    match spec_parse_aug(
                                        s,
                                        astart + 1,
                                        nul,
                                        p5,
                                        bases,
                                        spec_aug_default(),
                                    ) {
                                        None => None,
                                        Some((st, dused)) => if dused > p5 + alen {
                                            None
                                        } else {
                                            Some(
                                                Cie {
                                                    offset: off as usize,
                                                    version,
                                                    code_align: ca as u64,
                                                    data_align: da as i64,
                                                    return_address_register: ra as u64,
                                                    has_aug_data: true,
                                                    aug: st,
                                                    instructions_start: (p5 + alen) as usize,
                                                    instructions_end: end as usize,
                                                },
                                            )
                                        },
                                    }
                                },
                            }
                        } else {
                            None
                        },
                    }
                },
            }
        },
    }
}

/// Parses the CIE record at offset `off` of the section bytes.
#[verifier::rlimit(100)]
pub fn parse_cie(s: &Vec<u8>, off: usize, bases: PointerBases) -> (r: Option<Cie>)
    ensures
        r == spec_parse_cie(s@, off as int, bases),
{
    proof {
        reveal(spec_parse_cie);
    }
    let slen = s.len();
    if off > slen || slen - off < 4 {
        return None;
    }
    let len4 = match read_le_value(s, off, 4) {
        Some((v, _)) => v,
        None => {
            return None;
        },
    };
    if len4 == 0 || len4 == 0xffff_ffff || len4 > (slen - off - 4) as u64 || len4 < 5 {
        proof {
            assert(spec_parse_cie(s@, off as int, bases) is None);
        }
        return None;
    }
    let end = off + 4 + len4 as usize;
    let id = match read_le_value(s, off + 4, 4) {
        Some((v, _)) => v,
        None => {
            return None;
        },
    };
    if id != 0 {
        return None;
    }
    let version = s[off + 8];
    if version != 1 && version != 3 {
        return None;
    }
    let nul = match find_nul(s, off + 9) {
        Some(n) => n,
        None => {
            return None;
        },
    };
    if nul >= end {
        return None;
    }
    parse_cie_tail(s, off, off + 9, nul, end, version, bases)
}

/// Exec twin of [`spec_parse_cie_tail`].
#[verifier::rlimit(100)]
fn parse_cie_tail(
    s: &Vec<u8>,
    off: usize,
    astart: usize,
    nul: usize,
    end: usize,
    version: u8,
    bases: PointerBases,
) -> (r: Option<Cie>)
    requires
        astart <= nul < end <= s@.len(),
        version == 1 || version == 3,
    ensures
        r == spec_parse_cie_tail(
            s@,
            off as int,
            astart as int,
            nul as int,
            end as int,
            version,
            bases,
        ),
{
    proof {
        reveal(spec_parse_cie_tail);
    }
    let (ca, p2) = match read_uleb128(s, nul + 1) {
        Some(p) => p,
        None => {
            return None;
        },
    };
    if p2 > end {
        return None;
    }
    let (da, p3) = match read_sleb128(s, p2) {
        Some(p) => p,
        None => {
            return None;
        },
    };
    if p3 > end {
        return None;
    }
    let (ra, p4): (u64, usize) = if version == 1 {
        if p3 < end {
            (s[p3] as u64, p3 + 1)
        } else {
            return None;
        }
    } else {
        match read_uleb128(s, p3) {
            Some((ra, p4)) => if p4 <= end {
                (ra, p4)
            } else {
                return None;
            },
            None => {
                return None;
            },
        }
    };
    if astart == nul {
        return Some(
            Cie {
                offset: off,
                version,
                code_align: ca,
                data_align: da,
                return_address_register: ra,
                has_aug_data: false,
                aug: AugState {
                    fde_encoding: 0x00,
                    lsda_encoding: None,
                    personality: None,
                    is_signal_trampoline: false,
                },
                instructions_start: p4,
                instructions_end: end,
            },
        );
    }
    if s[astart] != 0x7a {
        return None;
    }
    proof {
        crate::util::lemma_uleb128_bounds(s@, p4 as int);
    }
    let (alen, p5) = match read_uleb128(s, p4) {
        Some(p) => p,
        None => {
            return None;
        },
    };
    if p5 > end {
        return None;
    }
    if alen > (end - p5) as u64 {
        return None;
    }
    let dend = p5 + alen as usize;
    let (st, dused) = match parse_aug(
        s,
        astart + 1,
        nul,
        p5,
        bases,
        AugState {
            fde_encoding: 0x00,
            lsda_encoding: None,
            personality: None,
            is_signal_trampoline: false,
        },
    ) {
        Some(p) => p,
        None => {
            return None;
        },
    };
    if dused > dend {
        return None;
    }
    Some(
        Cie {
            offset: off,
            version,
            code_align: ca,
            data_align: da,
            return_address_register: ra,
            has_aug_data: true,
            aug: st,
            instructions_start: dend,
            instructions_end: end,
        },
    )
}

/// The value carried by a decoded pointer, ignoring indirection.  FDE
/// start addresses use the pointer value itself even when the encoding
/// marks it indirect.
pub open spec fn spec_pointer_payload(p: Pointer) -> u64 {
    match p {
        Pointer::Direct(x) => x,
        Pointer::Indirect(x) => x,
    }
}

/// Exec twin of [`spec_pointer_payload`].
pub fn pointer_payload(p: Pointer) -> (r: u64)
    ensures
        r == spec_pointer_payload(p),
{
    match p {
        Pointer::Direct(x) => x,
        Pointer::Indirect(x) => x,
    }
}

/// The FDE record at offset `off`, with its CIE: `None` if either
/// record is malformed or `off` does not hold an FDE.
#[verifier::opaque]
pub open spec fn spec_parse_fde(s: Seq<u8>, off: int, bases: PointerBases) -> Option<Fde> {
    if off < 0 || off + 4 > s.len() {
        None
    } else {
        let len4 = spec_le_value(s, off, 4);
        let end = off + 4 + len4;
        if len4 == 0 || len4 == 0xffff_ffff || end > s.len() || off + 8 > end {
            None
        } else {
            let id = spec_le_value(s, off + 4, 4);
            if id == 0 || off + 4 - id < 0 {
                None
            } else {
                match spec_parse_cie(s, off + 4 - id, bases) {
                    None => None,
                    Some(cie) => spec_parse_fde_tail(s, off, end, cie, bases),
                }
            }
        }
    }
}

/// The part of an FDE after the id field: the covered addresses, the
/// augmentation data with its LSDA pointer, the instructions.
#[verifier::opaque]
pub open spec fn spec_parse_fde_tail(s: Seq<u8>, off: int, end: int, cie: Cie, bases: PointerBases) -> Option<
    Fde,
> {
    match spec_parse_pointer(s, off + 8, cie.aug.fde_encoding, bases) {
        None => None,
        Some((ip, p2)) => {
            let init = spec_pointer_payload(ip);
            match spec_parse_pointer(s, p2, cie.aug.fde_encoding & 0x0f, bases) {
                None => None,
                Some((rp, p3)) => {
                    let range = spec_pointer_payload(rp);
                    if p3 > end {
                        None
                    } else if cie.has_aug_data {
                        match spec_uleb128(s, p3) {
                            None => None,
                            Some((alen, p4)) => if p4 + alen > end {
                                None
                            } else {
                                match cie.aug.lsda_encoding {
                                    None => Some(
                                        Fde {
                                            offset: off as usize,
                                            cie,
                                            initial_address: init,
                                            address_range: range,
                                            lsda: None,
                                            instructions_start: (p4 + alen) as usize,
                                            instructions_end: end as usize,
                                        },
                                    ),
                                    Some(enc) => match spec_parse_pointer(
                                        s,
                                        p4,
                                        enc,
                                        PointerBases { func: Some(init), ..bases },
                                    ) {
                                        None => None,
                                        Some((lp, n)) => if n > p4 + alen {
                                            None
                                        } else {
                                            Some(
                                                Fde {
                                                    offset: off as usize,
                                                    cie,
                                                    initial_address: init,
                                                    address_range: range,
                                                    lsda: Some(lp),
                                                    instructions_start: (p4 + alen) as usize,
                                                    instructions_end: end as usize,
                                                },
                                            )
                                        },
                                    },
                                }
                            },
                        }
                    } else {
                        Some(
                            Fde {
                                offset: off as usize,
                                cie,
                                initial_address: init,
                                address_range: range,
                                lsda: None,
                                instructions_start: p3 as usize,
                                instructions_end: end as usize,
                            },
                        )
                    }
                },
            }
        },
    }
}

/// Parses the FDE record at offset `off` of the section bytes.
#[verifier::rlimit(100)]
pub fn parse_fde(s: &Vec<u8>, off: usize, bases: PointerBases) -> (r: Option<Fde>)
    ensures
        r == spec_parse_fde(s@, off as int, bases),
{
    proof {
        reveal(spec_parse_fde);
    }
    let slen = s.len();
    if off > slen || slen - off < 4 {
        return None;
    }
    let len4 = match read_le_value(s, off, 4) {
        Some((v, _)) => v,
        None => {
            return None;
        },
    };
    if len4 == 0 || len4 == 0xffff_ffff || len4 > (slen - off - 4) as u64 || len4 < 4 {
        return None;
    }
    let end = off + 4 + len4 as usize;
    let id = match read_le_value(s, off + 4, 4) {
        Some((v, _)) => v,
        None => {
            return None;
        },
    };
    if id == 0 || id > (off + 4) as u64 {
        return None;
    }
    let cie_off = off + 4 - id as usize;
    let cie = match parse_cie(s, cie_off, bases) {
        Some(c) => c,
        None => {
            return None;
        },
    };
    parse_fde_tail(s, off, end, cie, bases)
}

/// Exec twin of [`spec_parse_fde_tail`].
#[verifier::rlimit(100)]
fn parse_fde_tail(s: &Vec<u8>, off: usize, end: usize, cie: Cie, bases: PointerBases) -> (r: Option<
    Fde,
>)
    requires
        off + 8 <= end <= s@.len(),
    ensures
        r == spec_parse_fde_tail(s@, off as int, end as int, cie, bases),
{
    proof {
        reveal(spec_parse_fde_tail);
    }
    let (ip, p2) = match parse_pointer(s, off + 8, cie.aug.fde_encoding, bases) {
        Some(p) => p,
        None => {
            return None;
        },
    };
    let init = pointer_payload(ip);
    let (rp, p3) = match parse_pointer(s, p2, cie.aug.fde_encoding & 0x0f, bases) {
        Some(p) => p,
        None => {
            return None;
        },
    };
    let range = pointer_payload(rp);
    if p3 > end {
        return None;
    }
    if !cie.has_aug_data {
        return Some(
            Fde {
                offset: off,
                cie,
                initial_address: init,
                address_range: range,
                lsda: None,
                instructions_start: p3,
                instructions_end: end,
            },
        );
    }
    proof {
        crate::util::lemma_uleb128_bounds(s@, p3 as int);
    }
    let (alen, p4) = match read_uleb128(s, p3) {
        Some(p) => p,
        None => {
            return None;
        },
    };
    if p4 > end || alen > (end - p4) as u64 {
        return None;
    }
    let dend = p4 + alen as usize;
    match cie.aug.lsda_encoding {
        None => Some(
            Fde {
                offset: off,
                cie,
                initial_address: init,
                address_range: range,
                lsda: None,
                instructions_start: dend,
                instructions_end: end,
            },
        ),
        Some(enc) => {
            let (lp, n) = match parse_pointer(
                s,
                p4,
                enc,
                PointerBases { func: Some(init), ..bases },
            ) {
                Some(p) => p,
                None => {
                    return None;
                },
            };
            if n > dend {
                return None;
            }
            Some(
                Fde {
                    offset: off,
                    cie,
                    initial_address: init,
                    address_range: range,
                    lsda: Some(lp),
                    instructions_start: dend,
                    instructions_end: end,
                },
            )
        },
    }
}

/// The first FDE at or after offset `off` that covers `pc`.  A CIE is
/// skipped; a zero length word ends the section; a malformed record
/// fails the whole search.
pub open spec fn spec_scan_records(s: Seq<u8>, off: int, pc: int, bases: PointerBases) -> Option<
    Fde,
>
    decreases s.len() - off,
{
    if off < 0 || off + 4 > s.len() {
        None
    } else {
        let len4 = spec_le_value(s, off, 4);
        let end = off + 4 + len4;
        if len4 == 0 || len4 == 0xffff_ffff || end > s.len() || off + 8 > end {
            None
        } else {
            let id = spec_le_value(s, off + 4, 4);
            if id == 0 {
                spec_scan_records(s, end, pc, bases)
            } else {
                match spec_parse_fde(s, off, bases) {
                    None => None,
                    Some(f) => if f.spec_contains(pc) {
                        Some(f)
                    } else {
                        spec_scan_records(s, end, pc, bases)
                    },
                }
            }
        }
    }
}

/// Exec twin of [`spec_scan_records`].
#[verifier::rlimit(100)]
fn scan_records(s: &Vec<u8>, off: usize, pc: u64, bases: PointerBases) -> (r: Option<Fde>)
    ensures
        r == spec_scan_records(s@, off as int, pc as int, bases),
    decreases s@.len() - off,
{
    let slen = s.len();
    if off > slen || slen - off < 4 {
        return None;
    }
    let len4 = match read_le_value(s, off, 4) {
        Some((v, _)) => v,
        None => {
            return None;
        },
    };
    if len4 == 0 || len4 == 0xffff_ffff || len4 > (slen - off - 4) as u64 || len4 < 4 {
        return None;
    }
    let end = off + 4 + len4 as usize;
    let id = match read_le_value(s, off + 4, 4) {
        Some((v, _)) => v,
        None => {
            return None;
        },
    };
    if id == 0 {
        return scan_records(s, end, pc, bases);
    }
    match parse_fde(s, off, bases) {
        None => None,
        Some(f) => if f.contains(pc) {
            Some(f)
        } else {
            scan_records(s, end, pc, bases)
        },
    }
}

/// Whatever the linear search returns covers the queried counter.
pub proof fn lemma_scan_records_covers(s: Seq<u8>, off: int, pc: int, bases: PointerBases)
    ensures
        spec_scan_records(s, off, pc, bases) matches Some(f) ==> f.spec_contains(pc),
    decreases s.len() - off,
{
    if 0 <= off && off + 4 <= s.len() {
        let len4 = crate::encoding::spec_le_value(s, off, 4);
        let end = off + 4 + len4;
        if !(len4 == 0 || len4 == 0xffff_ffff || end > s.len() || off + 8 > end) {
            lemma_scan_records_covers(s, end, pc, bases);
        }
    }
}

/// An FDE whose offset lies past the section fails to parse.
pub proof fn lemma_parse_fde_oob(s: Seq<u8>, off: int, bases: PointerBases)
    requires
        off + 4 > s.len(),
    ensures
        spec_parse_fde(s, off, bases) is None,
{
    reveal(spec_parse_fde);
}

impl Section {
    /// The pointer bases for records of this section: pc-relative
    /// against the section, data-relative against the `.got`.
    pub open spec fn spec_bases(&self, text: Option<u64>, got: Option<u64>) -> PointerBases {
        PointerBases { section: self.addr, text, data: got, func: None }
    }

    /// Searches the whole section for an FDE covering `pc`, linearly.
    pub fn fde_for_address(&self, pc: u64, text: Option<u64>, got: Option<u64>) -> (r: Option<Fde>)
        ensures
            r == spec_scan_records(self.bytes@, 0, pc as int, self.spec_bases(text, got)),
    {
        let bases = PointerBases { section: self.addr, text, data: got, func: None };
        scan_records(&self.bytes, 0, pc, bases)
    }
}

} // verus!
