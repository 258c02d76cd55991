//! DWARF encoded pointers (`DW_EH_PE_*`).
//!
//! `.eh_frame` and `.eh_frame_hdr` store addresses in a one-byte
//! encoding: the low four bits give the value format, bits `0x70` give
//! the base the value is relative to, and bit `0x80` makes the pointer
//! indirect.  The supported formats and applications are the ones
//! compilers emit for unwind tables; an encoding outside them is a
//! parse failure, never undefined behaviour.

use crate::util::{spec_sleb128, spec_uleb128, read_sleb128, read_uleb128, Pointer};
use vstd::prelude::*;

verus! {

/// Value of `DW_EH_PE_omit`: no pointer is stored at all.
pub const PE_OMIT: u8 = 0xff;

/// The base addresses against which the relative pointer encodings in
/// one section are applied.
#[derive(Clone, Copy, PartialEq, Eq, Structural, Debug)]
pub struct PointerBases {
    /// The address of the section the pointer is stored in, for
    /// pc-relative pointers.
    pub section: u64,
    /// The base for text-relative pointers.
    pub text: Option<u64>,
    /// The base for data-relative pointers: the `.got` for pointers in
    /// `.eh_frame`, the section itself for pointers in `.eh_frame_hdr`.
    pub data: Option<u64>,
    /// The base for function-relative pointers.
    pub func: Option<u64>,
}

/// The unsigned little-endian value of `count` bytes starting at `pos`.
pub open spec fn spec_le_value(s: Seq<u8>, pos: int, count: int) -> int
    decreases count,
{
    if count <= 0 {
        0
    } else {
        s[pos] + 0x100 * spec_le_value(s, pos + 1, count - 1)
    }
}

/// Sign-extension of a `width * 8` bit value to 64 bits, as a `u64`.
pub open spec fn spec_sext(v: int, width: int) -> int {
    if v >= pow_byte(width) / 2 {
        v + (0x1_0000_0000_0000_0000 - pow_byte(width))
    } else {
        v
    }
}

/// `256 ^ width`.
pub open spec fn pow_byte(width: int) -> int
    decreases width,
{
    if width <= 0 {
        1
    } else {
        0x100 * pow_byte(width - 1)
    }
}

/// The format half of an encoding: the raw value read at `pos` and the
/// position just past it, before any base is applied.  `None` for a
/// format outside the supported set or bytes that run out.
pub open spec fn spec_pointer_value(s: Seq<u8>, pos: int, encoding: u8) -> Option<(int, int)> {
    let format = encoding & 0x0f;
    if format == 0x00 {
        // absptr
        if pos >= 0 && pos + 8 <= s.len() {
            Some((spec_le_value(s, pos, 8), pos + 8))
        } else {
            None
        }
    } else if format == 0x01 {
        // uleb128
        match spec_uleb128(s, pos) {
            Some((v, n)) => if v <= u64::MAX {
                Some((v as int, n))
            } else {
                None
            },
            None => None,
        }
    } else if format == 0x02 {
        // udata2
        if pos >= 0 && pos + 2 <= s.len() {
            Some((spec_le_value(s, pos, 2), pos + 2))
        } else {
            None
        }
    } else if format == 0x03 {
        // udata4
        if pos >= 0 && pos + 4 <= s.len() {
            Some((spec_le_value(s, pos, 4), pos + 4))
        } else {
            None
        }
    } else if format == 0x04 {
        // udata8
        if pos >= 0 && pos + 8 <= s.len() {
            Some((spec_le_value(s, pos, 8), pos + 8))
        } else {
            None
        }
    } else if format == 0x09 {
        // sleb128
        match spec_sleb128(s, pos) {
            Some((v, n)) => if i64::MIN <= v <= i64::MAX {
                Some((if v < 0 {
                    v + 0x1_0000_0000_0000_0000
                } else {
                    v
                }, n))
            } else {
                None
            },
            None => None,
        }
    } else if format == 0x0a {
        // sdata2
        if pos >= 0 && pos + 2 <= s.len() {
            Some((spec_sext(spec_le_value(s, pos, 2), 2), pos + 2))
        } else {
            None
        }
    } else if format == 0x0b {
        // sdata4
        if pos >= 0 && pos + 4 <= s.len() {
            Some((spec_sext(spec_le_value(s, pos, 4), 4), pos + 4))
        } else {
            None
        }
    } else if format == 0x0c {
        // sdata8
        if pos >= 0 && pos + 8 <= s.len() {
            Some((spec_le_value(s, pos, 8), pos + 8))
        } else {
            None
        }
    } else {
        None
    }
}

/// The base value an application half selects, if that base is known.
pub open spec fn spec_pointer_base(encoding: u8, pos: int, bases: PointerBases) -> Option<int> {
    let application = encoding & 0x70;
    if application == 0x00 {
        Some(0)
    } else if application == 0x10 {
        // pcrel: relative to the location of the pointer itself
        Some(bases.section + pos)
    } else if application == 0x20 {
        // textrel
        match bases.text {
            Some(b) => Some(b as int),
            None => None,
        }
    } else if application == 0x30 {
        // datarel
        match bases.data {
            Some(b) => Some(b as int),
            None => None,
        }
    } else if application == 0x40 {
        // funcrel
        match bases.func {
            Some(b) => Some(b as int),
            None => None,
        }
    } else {
        None
    }
}

/// The pointer encoded at `pos` and the position just past it: format
/// value plus selected base, truncated to 64 bits, indirect if bit
/// `0x80` is set.
pub open spec fn spec_parse_pointer(s: Seq<u8>, pos: int, encoding: u8, bases: PointerBases) -> Option<
    (Pointer, int),
> {
    match (spec_pointer_value(s, pos, encoding), spec_pointer_base(encoding, pos, bases)) {
        (Some((v, n)), Some(b)) => {
            let value = ((v + b) % 0x1_0000_0000_0000_0000) as u64;
            if encoding & 0x80 == 0x80 {
                Some((Pointer::Indirect(value), n))
            } else {
                Some((Pointer::Direct(value), n))
            }
        },
        _ => None,
    }
}

/// Reads the unsigned little-endian value of `count <= 8` bytes at
/// `pos`, returning it with the position just past it.
pub(crate) fn read_le_value(s: &Vec<u8>, pos: usize, count: usize) -> (r: Option<(u64, usize)>)
    requires
        count <= 8,
    ensures
        match r {
            Some(p) => pos + count <= s@.len() && p.0 == spec_le_value(
                s@,
                pos as int,
                count as int,
            ) && p.0 < pow_byte(count as int) && p.1 == pos + count,
            None => pos + count > s@.len(),
        },
{
    if pos > s.len() || count > s.len() - pos {
        return None;
    }
    let mut acc: u64 = 0;
    let mut i: usize = count;
    proof {
        reveal_with_fuel(pow_byte, 9);
        assert(pow_byte(8) == 0x1_0000_0000_0000_0000);
    }
    while i > 0
        invariant
            i <= count <= 8,
            pos + count <= s@.len(),
            s@.len() <= usize::MAX,
            acc == spec_le_value(s@, (pos + i) as int, (count - i) as int),
            acc < pow_byte((count - i) as int),
            pow_byte(8) == 0x1_0000_0000_0000_0000,
        decreases i,
    {
        i = i - 1;
        proof {
            pow_byte_increases((count - i) as int, 8);
            assert(pow_byte((count - i) as int) == 0x100 * pow_byte((count - i - 1) as int));
        }
        acc = (s[pos + i] as u64) + 0x100 * acc;
    }
    Some((acc, pos + count))
}

proof fn pow_byte_pos(a: int)
    ensures
        pow_byte(a) >= 1,
    decreases if a > 0 { a } else { 0 },
{
    if a > 0 {
        pow_byte_pos(a - 1);
    }
}

proof fn pow_byte_increases(a: int, b: int)
    requires
        0 <= a <= b,
    ensures
        1 <= pow_byte(a) <= pow_byte(b),
    decreases b,
{
    pow_byte_pos(a);
    if a < b {
        pow_byte_increases(a, b - 1);
        pow_byte_pos(b - 1);
    }
}

/// Reads the pointer encoded at `pos` with `encoding`, against `bases`;
/// returns it with the position just past it.
#[verifier::rlimit(50)]
pub fn parse_pointer(s: &Vec<u8>, pos: usize, encoding: u8, bases: PointerBases) -> (r: Option<
    (Pointer, usize),
>)
    ensures
        match r {
            Some(p) => spec_parse_pointer(s@, pos as int, encoding, bases) matches Some(q) && q.0
                == p.0 && q.1 == p.1,
            None => spec_parse_pointer(s@, pos as int, encoding, bases) is None,
        },
{
    proof {
        reveal_with_fuel(pow_byte, 5);
        assert(pow_byte(2) == 0x1_0000 && pow_byte(4) == 0x1_0000_0000);
    }
    let format = encoding & 0x0f;
    let value_next: Option<(u64, usize)> = if format == 0x00 || format == 0x04 || format == 0x0c {
        read_le_value(s, pos, 8)
    } else if format == 0x01 {
        read_uleb128(s, pos)
    } else if format == 0x02 {
        read_le_value(s, pos, 2)
    } else if format == 0x03 {
        read_le_value(s, pos, 4)
    } else if format == 0x09 {
        match read_sleb128(s, pos) {
            Some((v, n)) => {
                let uv: u64 = if v >= 0 {
                    v as u64
                } else {
                    ((v as i128) + 0x1_0000_0000_0000_0000i128) as u64
                };
                Some((uv, n))
            },
            None => None,
        }
    } else if format == 0x0a {
        match read_le_value(s, pos, 2) {
            Some((v, n)) => Some((if v >= 0x8000 {
                v + 0xffff_ffff_ffff_0000
            } else {
                v
            }, n)),
            None => None,
        }
    } else if format == 0x0b {
        match read_le_value(s, pos, 4) {
            Some((v, n)) => Some((if v >= 0x8000_0000 {
                v + 0xffff_ffff_0000_0000
            } else {
                v
            }, n)),
            None => None,
        }
    } else {
        None
    };
    assert(match value_next {
        Some(p) => spec_pointer_value(s@, pos as int, encoding) matches Some(q) && q.0 == p.0
            && q.1 == p.1,
        None => spec_pointer_value(s@, pos as int, encoding) is None,
    });
    let (value, next) = match value_next {
        Some(p) => p,
        None => {
            return None;
        },
    };
    let application = encoding & 0x70;
    let base: u64 = if application == 0x00 {
        0
    } else if application == 0x10 {
        bases.section.wrapping_add(pos as u64)
    } else if application == 0x20 {
        match bases.text {
            Some(b) => b,
            None => {
                return None;
            },
        }
    } else if application == 0x30 {
        match bases.data {
            Some(b) => b,
            None => {
                return None;
            },
        }
    } else if application == 0x40 {
        match bases.func {
            Some(b) => b,
            None => {
                return None;
            },
        }
    } else {
        return None;
    };
    let applied = value.wrapping_add(base);
    proof {
        let sb = spec_pointer_base(encoding, pos as int, bases)->Some_0;
        lemma_wrapping_matches(value as int, sb);
    }
    if encoding & 0x80 == 0x80 {
        Some((Pointer::Indirect(applied), next))
    } else {
        Some((Pointer::Direct(applied), next))
    }
}

/// `(v + (b % 2^64)) % 2^64 == (v + b) % 2^64`.
proof fn lemma_wrapping_matches(v: int, b: int)
    ensures
        (v + (b % 0x1_0000_0000_0000_0000)) % 0x1_0000_0000_0000_0000 == (v + b)
            % 0x1_0000_0000_0000_0000,
{
    let m = 0x1_0000_0000_0000_0000int;
    vstd::arithmetic::div_mod::lemma_add_mod_noop(v, b, m);
    vstd::arithmetic::div_mod::lemma_add_mod_noop(v, b % m, m);
    vstd::arithmetic::div_mod::lemma_mod_twice(b, m);
    vstd::arithmetic::div_mod::lemma_mod_twice(v, m);
}

} // verus!
