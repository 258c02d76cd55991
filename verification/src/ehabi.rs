//! The ARM exception-handling variant: `.ARM.exidx` index entries and
//! the VRS (virtual register set) bytecode.
//!
//! On ARM the DWARF row is replaced by a short unwinding program that
//! adjusts the stack pointer and pops registers.  The commands
//! interpreted here are the inline personality-0 subset: stack
//! adjustment, the two pop forms, and finish; anything else is an
//! error, never undefined behaviour.  After interpretation, if the
//! program never wrote the program counter, it is taken from the link
//! register.

use crate::mem::Memory;
use vstd::prelude::*;

verus! {

/// The ARM virtual register set the unwinding program manipulates:
/// the low thirteen general-purpose registers, the stack pointer, the
/// link register and the program counter.
#[derive(Clone, Copy, PartialEq, Eq, Debug)]
pub struct VrsContext {
    /// Registers `r0` through `r12`.
    pub gp: [u32; 13],
    /// The stack pointer, `r13`.
    pub sp: u32,
    /// The link register, `r14`.
    pub lr: u32,
    /// The program counter, `r15`.
    pub pc: u32,
}

/// The ghost image of the register set.
pub struct VrsRegs {
    /// Registers `r0` through `r12`.
    pub gp: Seq<u32>,
    /// The stack pointer.
    pub sp: u32,
    /// The link register.
    pub lr: u32,
    /// The program counter.
    pub pc: u32,
}

/// The ghost image of an exec register set.
pub open spec fn spec_vrs_regs(c: VrsContext) -> VrsRegs {
    VrsRegs { gp: c.gp@, sp: c.sp, lr: c.lr, pc: c.pc }
}

/// One `pop` command, from bit `i` up: for each bit set in `mask`,
/// reads a word at `ptr` and assigns register `i`, walking the stack
/// upward; at the end the stack pointer lies past the popped words
/// unless it was itself popped.
pub open spec fn spec_vrs_pop(
    r: VrsRegs,
    ptr: u32,
    sp_popped: bool,
    mask: u32,
    mem: &Memory,
    i: int,
) -> Option<VrsRegs>
    decreases 16 - i,
{
    if i >= 16 {
        Some(
            if sp_popped {
                r
            } else {
                VrsRegs { sp: ptr, ..r }
            },
        )
    } else if mask & (1u32 << (i as u32)) != 0 {
        if mem.spec_range_in(ptr as int, 4) {
            let v = mem.spec_word32_at(ptr as int) as u32;
            let r2 = if i <= 12 {
                VrsRegs { gp: r.gp.update(i, v), ..r }
            } else if i == 13 {
                VrsRegs { sp: v, ..r }
            } else if i == 14 {
                VrsRegs { lr: v, ..r }
            } else {
                VrsRegs { pc: v, ..r }
            };
            spec_vrs_pop(r2, ptr.wrapping_add(4), sp_popped || i == 13, mask, mem, i + 1)
        } else {
            None
        }
    } else {
        spec_vrs_pop(r, ptr, sp_popped, mask, mem, i + 1)
    }
}

/// The register set an unwinding program in `code[pos..]` produces:
/// `None` on an unknown command or an unreadable pop.  At the end — a
/// finish command or the end of the program — the program counter is
/// taken from the link register unless a pop wrote it.
pub open spec fn spec_vrs_interpret(
    code: Seq<u8>,
    pos: int,
    r: VrsRegs,
    wrote_pc: bool,
    mem: &Memory,
) -> Option<VrsRegs>
    decreases code.len() - pos,
{
    if pos < 0 {
        None
    } else if pos >= code.len() {
        Some(
            if wrote_pc {
                r
            } else {
                VrsRegs { pc: r.lr, ..r }
            },
        )
    } else {
        let b = code[pos];
        if b & 0x80 == 0 {
            let adj = ((b & 0x3f) as u32 * 4 + 4) as u32;
            let sp2 = if b & 0x40 == 0 {
                r.sp.wrapping_add(adj)
            } else {
                r.sp.wrapping_sub(adj)
            };
            spec_vrs_interpret(code, pos + 1, VrsRegs { sp: sp2, ..r }, wrote_pc, mem)
        } else if b & 0xf0 == 0x80 {
            if pos + 1 < code.len() {
                let mask = (((b & 0x0f) as u32) << 12u32) | ((code[pos + 1] as u32) << 4u32);
                match spec_vrs_pop(r, r.sp, false, mask, mem, 0) {
                    None => None,
                    Some(r2) => spec_vrs_interpret(
                        code,
                        pos + 2,
                        r2,
                        wrote_pc || (mask & 0x8000u32 != 0),
                        mem,
                    ),
                }
            } else {
                None
            }
        } else if b & 0xf0 == 0xa0 {
            let n = ((b & 0x07) + 1) as u32;
            let ones = ((1u32 << n) - 1) as u32;
            let mask = (ones << 4u32) | if b & 0x08 != 0 {
                0x4000u32
            } else {
                0u32
            };
            match spec_vrs_pop(r, r.sp, false, mask, mem, 0) {
                None => None,
                Some(r2) => spec_vrs_interpret(code, pos + 1, r2, wrote_pc, mem),
            }
        } else if b == 0xb0 {
            Some(
                if wrote_pc {
                    r
                } else {
                    VrsRegs { pc: r.lr, ..r }
                },
            )
        } else {
            None
        }
    }
}

/// Exec twin of [`spec_vrs_pop`].
fn vrs_pop_rec(c: VrsContext, ptr: u32, sp_popped: bool, mask: u32, mem: &Memory, i: usize) -> (r:
    Option<VrsContext>)
    requires
        mem.wf(),
        i <= 16,
    ensures
        match r {
            Some(c2) => spec_vrs_pop(spec_vrs_regs(c), ptr, sp_popped, mask, mem, i as int)
                == Some(spec_vrs_regs(c2)),
            None => spec_vrs_pop(spec_vrs_regs(c), ptr, sp_popped, mask, mem, i as int) is None,
        },
    decreases 16 - i,
{
    if i >= 16 {
        if sp_popped {
            Some(c)
        } else {
            Some(VrsContext { sp: ptr, ..c })
        }
    } else if mask & (1u32 << (i as u32)) != 0 {
        match mem.read_word32(ptr as u64) {
            None => None,
            Some(v) => {
                let mut c2 = c;
                if i <= 12 {
                    c2.gp[i] = v;
                } else if i == 13 {
                    c2.sp = v;
                } else if i == 14 {
                    c2.lr = v;
                } else {
                    c2.pc = v;
                }
                proof {
                    if i <= 12 {
                        assert(c2.gp@ =~= c.gp@.update(i as int, v));
                    }
                }
                vrs_pop_rec(c2, ptr.wrapping_add(4), sp_popped || i == 13, mask, mem, i + 1)
            },
        }
    } else {
        vrs_pop_rec(c, ptr, sp_popped, mask, mem, i + 1)
    }
}

/// Exec twin of [`spec_vrs_interpret`].
fn vrs_run(c: VrsContext, code: &Vec<u8>, pos: usize, wrote_pc: bool, mem: &Memory) -> (r: Option<
    VrsContext,
>)
    requires
        mem.wf(),
    ensures
        match r {
            Some(c2) => spec_vrs_interpret(code@, pos as int, spec_vrs_regs(c), wrote_pc, mem)
                == Some(spec_vrs_regs(c2)),
            None => spec_vrs_interpret(code@, pos as int, spec_vrs_regs(c), wrote_pc, mem) is None,
        },
    decreases code@.len() - pos,
{
    if pos >= code.len() {
        if wrote_pc {
            return Some(c);
        }
        return Some(VrsContext { pc: c.lr, ..c });
    }
    let b = code[pos];
    if b & 0x80 == 0 {
        let adj = (b & 0x3f) as u32 * 4 + 4;
        let sp2 = if b & 0x40 == 0 {
            c.sp.wrapping_add(adj)
        } else {
            c.sp.wrapping_sub(adj)
        };
        vrs_run(VrsContext { sp: sp2, ..c }, code, pos + 1, wrote_pc, mem)
    } else if b & 0xf0 == 0x80 {
        if pos + 1 < code.len() {
            let mask = (((b & 0x0f) as u32) << 12u32) | ((code[pos + 1] as u32) << 4u32);
            match vrs_pop_rec(c, c.sp, false, mask, mem, 0) {
                None => None,
                Some(c2) => vrs_run(c2, code, pos + 2, wrote_pc || (mask & 0x8000u32 != 0), mem),
            }
        } else {
            None
        }
    } else if b & 0xf0 == 0xa0 {
        proof {
            assert(b & 0x07 <= 7) by (bit_vector);
        }
        let n = ((b & 0x07) + 1) as u32;
        proof {
            assert(n <= 8 ==> (1u32 << n) >= 1) by (bit_vector);
        }
        let ones = (1u32 << n) - 1;
        let mask = (ones << 4u32) | if b & 0x08 != 0 {
            0x4000u32
        } else {
            0u32
        };
        match vrs_pop_rec(c, c.sp, false, mask, mem, 0) {
            None => None,
            Some(c2) => vrs_run(c2, code, pos + 1, wrote_pc, mem),
        }
    } else if b == 0xb0 {
        if wrote_pc {
            Some(c)
        } else {
            Some(VrsContext { pc: c.lr, ..c })
        }
    } else {
        None
    }
}

/// Interprets an unwinding program over a register set, producing the
/// caller's register set.
pub fn vrs_interpret(ctx: &VrsContext, code: &Vec<u8>, mem: &Memory) -> (r: Option<VrsContext>)
    requires
        mem.wf(),
    ensures
        match r {
            Some(c2) => spec_vrs_interpret(code@, 0, spec_vrs_regs(*ctx), false, mem) == Some(
                spec_vrs_regs(c2),
            ),
            None => spec_vrs_interpret(code@, 0, spec_vrs_regs(*ctx), false, mem) is None,
        },
{
    vrs_run(*ctx, code, 0, false, mem)
}

/// Decoding an `.ARM.exidx` data word failed: the entry names a
/// personality index or a table model outside the supported subset.
#[derive(Clone, Copy, PartialEq, Eq, Structural, Debug)]
pub struct EhabiError;

/// Splits the data word of an index entry.  The value `1` is
/// `CANTUNWIND`: the frame marks the end of the stack and carries no
/// program.  A word with its top bit set is an inline entry; its
/// personality index must be zero, its low three bytes are the
/// unwinding program, high byte first, and its low three bytes are
/// also the argument handed to the personality.  Any other word
/// points into the generic-model table, which is not implemented.
pub fn decode_exidx_entry(data: u32) -> (r: Result<Option<(Vec<u8>, u32)>, EhabiError>)
    ensures
        (data == 1 ==> r == Ok::<Option<(Vec<u8>, u32)>, EhabiError>(None)),
        (data & 0x8000_0000 != 0 && (data >> 24) & 0x0f == 0 ==> (r matches Ok(Some(p)) && p.0@
            =~= seq![(data >> 16) as u8, (data >> 8) as u8, data as u8] && p.1 == data
            & 0x00ff_ffff)),
        (data & 0x8000_0000 != 0 && (data >> 24) & 0x0f != 0 ==> r is Err),
        (data != 1 && data & 0x8000_0000 == 0 ==> r is Err),
{
    if data == 1 {
        proof {
            assert(1u32 & 0x8000_0000u32 == 0u32) by (bit_vector);
        }
        return Ok(None);
    }
    if data & 0x8000_0000 != 0 {
        if (data >> 24) & 0x0f != 0 {
            return Err(EhabiError);
        }
        let mut code: Vec<u8> = Vec::new();
        code.push(((data >> 16) & 0xff) as u8);
        code.push(((data >> 8) & 0xff) as u8);
        code.push((data & 0xff) as u8);
        proof {
            assert((((data >> 16) & 0xff) as u8) == ((data >> 16) as u8)) by (bit_vector);
            assert((((data >> 8) & 0xff) as u8) == ((data >> 8) as u8)) by (bit_vector);
            assert(((data & 0xff) as u8) == (data as u8)) by (bit_vector);
            assert(code@ =~= seq![(data >> 16) as u8, (data >> 8) as u8, data as u8]);
        }
        return Ok(Some((code, data & 0x00ff_ffff)));
    }
    Err(EhabiError)
}

/// One `.ARM.exidx` entry: a place-relative pointer to the function it
/// covers, and the unwinding data word.
#[derive(Clone, Copy, PartialEq, Eq, Structural, Debug)]
pub struct IndexEntry {
    /// The function start, as a 31-bit offset relative to this word's
    /// own address.
    pub offset: u32,
    /// The unwinding data: an inline program or a table pointer.
    pub data: u32,
}

/// A 31-bit place-relative offset applied to the address it is stored
/// at: the offset sign-extended by one bit, added with wraparound.
pub open spec fn spec_prel31(offset: u32, location: u32) -> u32 {
    location.wrapping_add(offset | ((offset & 0x4000_0000u32) << 1u32))
}

impl IndexEntry {
    /// The address of the function this entry covers.  `location` is
    /// the address the entry itself is stored at; the production table
    /// reads it from the entry's own position.  The top bit of the
    /// offset must be clear, as the format demands.
    pub fn addr(&self, location: u32) -> (r: u32)
        requires
            self.offset & 0x8000_0000u32 == 0,
        ensures
            r == spec_prel31(self.offset, location),
    {
        let off = self.offset | ((self.offset & 0x4000_0000) << 1);
        location.wrapping_add(off)
    }
}

/// The address of entry `i` of a table laid out at `base`, eight bytes
/// per entry.
pub open spec fn spec_entry_location(base: u32, i: int) -> u32 {
    base.wrapping_add((((8 * i) % 0x1_0000_0000) as u32))
}

/// The index of the last table entry whose function start is at or
/// below `pc`, among the first `k` entries.  The table is sorted by
/// address, so this is the entry covering `pc`.
pub open spec fn spec_find_entry(table: Seq<IndexEntry>, base: u32, pc: u32, k: int) -> Option<int>
    decreases k,
{
    if k <= 0 {
        None
    } else if spec_prel31(table[k - 1].offset, spec_entry_location(base, k - 1)) <= pc {
        Some(k - 1)
    } else {
        spec_find_entry(table, base, pc, k - 1)
    }
}

/// Finds the index entry covering `pc`: the last one whose function
/// start is at or below it.  `None` when `pc` lies outside the text
/// range the table describes.
pub fn find_entry_for_pc(
    table: &Vec<IndexEntry>,
    base: u32,
    pc: u32,
    text_start: u32,
    text_end: u32,
) -> (r: Option<usize>)
    requires
        forall|j: int|
            0 <= j < table@.len() ==> (#[trigger] table@[j].offset) & 0x8000_0000u32 == 0,
    ensures
        match r {
            Some(i) => text_start <= pc < text_end && spec_find_entry(
                table@,
                base,
                pc,
                table@.len() as int,
            ) == Some(i as int),
            None => !(text_start <= pc < text_end) || spec_find_entry(
                table@,
                base,
                pc,
                table@.len() as int,
            ) is None,
        },
{
    if !(text_start <= pc && pc < text_end) {
        return None;
    }
    let mut k: usize = table.len();
    while k > 0
        invariant
            k <= table@.len(),
            text_start <= pc < text_end,
            forall|j: int|
                0 <= j < table@.len() ==> (#[trigger] table@[j].offset) & 0x8000_0000u32 == 0,
            spec_find_entry(table@, base, pc, table@.len() as int) == spec_find_entry(
                table@,
                base,
                pc,
                k as int,
            ),
        decreases k,
    {
        k = k - 1;
        let loc = base.wrapping_add((((k as u128) * 8) % 0x1_0000_0000) as u32);
        proof {
            assert(loc == spec_entry_location(base, k as int));
        }
        if table[k].addr(loc) <= pc {
            return Some(k);
        }
    }
    None
}

} // verus!
