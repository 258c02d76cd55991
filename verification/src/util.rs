//! Variable-length integers and dereferenceable pointers.
//!
//! DWARF encodes most lengths and factors as LEB128: seven value bits
//! per byte, least significant group first, the high bit of each byte
//! saying whether another byte follows.

use crate::mem::Memory;
use vstd::prelude::*;

verus! {

/// The value and end position of the unsigned LEB128 number starting at
/// `pos`, or `None` if the bytes run out before a terminating byte.
pub open spec fn spec_uleb128(s: Seq<u8>, pos: int) -> Option<(nat, int)>
    decreases s.len() - pos,
{
    if pos < 0 || pos >= s.len() {
        None
    } else {
        let b = s[pos];
        if b < 0x80 {
            Some((b as nat, pos + 1))
        } else {
            match spec_uleb128(s, pos + 1) {
                None => None,
                Some((v, n)) => Some((((b - 0x80) + 128 * v) as nat, n)),
            }
        }
    }
}

/// The value and end position of the signed LEB128 number starting at
/// `pos`: as the unsigned form, but the uppermost value bit of the final
/// byte is the sign.
pub open spec fn spec_sleb128(s: Seq<u8>, pos: int) -> Option<(int, int)>
    decreases s.len() - pos,
{
    if pos < 0 || pos >= s.len() {
        None
    } else {
        let b = s[pos];
        if b < 0x80 {
            if b >= 0x40 {
                Some((b - 0x80, pos + 1))
            } else {
                Some((b as int, pos + 1))
            }
        } else {
            match spec_sleb128(s, pos + 1) {
                None => None,
                Some((v, n)) => Some(((b - 0x80) + 128 * v, n)),
            }
        }
    }
}

/// Positions move forward: a decoded LEB128 number ends after where it
/// starts and within the bytes.
pub proof fn lemma_uleb128_bounds(s: Seq<u8>, pos: int)
    ensures
        match spec_uleb128(s, pos) {
            Some(p) => pos < p.1 <= s.len() && p.0 >= 0,
            None => true,
        },
    decreases s.len() - pos,
{
    if 0 <= pos < s.len() {
        if s[pos] >= 0x80 {
            lemma_uleb128_bounds(s, pos + 1);
        }
    }
}

/// Reads the unsigned LEB128 number starting at `pos`, returning its
/// value and the position just past it.  Returns `None` where the spec
/// does, and also when the value does not fit in a `u64`.
pub fn read_uleb128(s: &Vec<u8>, pos: usize) -> (r: Option<(u64, usize)>)
    ensures
        match spec_uleb128(s@, pos as int) {
            None => r is None,
            Some(p) => if p.0 <= u64::MAX {
                r matches Some(q) && q.0 == p.0 && q.1 == p.1 && pos < q.1 <= s@.len()
            } else {
                r is None
            },
        },
    decreases s@.len() - pos,
{
    if pos >= s.len() {
        return None;
    }
    let b = s[pos];
    if b < 0x80 {
        Some((b as u64, pos + 1))
    } else {
        match read_uleb128(s, pos + 1) {
            None => None,
            Some((v, n)) => {
                let low = (b - 0x80) as u64;
                if v <= (u64::MAX - low) / 128 {
                    Some((low + 128 * v, n))
                } else {
                    None
                }
            },
        }
    }
}

/// Reads the signed LEB128 number starting at `pos`.  Returns `None`
/// where the spec does, and also when the value does not fit in an
/// `i64`.
pub fn read_sleb128(s: &Vec<u8>, pos: usize) -> (r: Option<(i64, usize)>)
    ensures
        match spec_sleb128(s@, pos as int) {
            None => r is None,
            Some(p) => if i64::MIN <= p.0 <= i64::MAX {
                r matches Some(q) && q.0 == p.0 && q.1 == p.1 && pos < q.1 <= s@.len()
            } else {
                r is None
            },
        },
    decreases s@.len() - pos,
{
    if pos >= s.len() {
        return None;
    }
    let b = s[pos];
    if b < 0x80 {
        if b >= 0x40 {
            Some((b as i64 - 0x80, pos + 1))
        } else {
            Some((b as i64, pos + 1))
        }
    } else {
        match read_sleb128(s, pos + 1) {
            None => None,
            Some((v, n)) => {
                let low = (b - 0x80) as i64;
                let t: i128 = low as i128 + 128 * (v as i128);
                if i64::MIN as i128 <= t && t <= i64::MAX as i128 {
                    Some((t as i64, n))
                } else {
                    None
                }
            },
        }
    }
}

/// A decoded DWARF pointer: either the value itself, or the address of
/// a word holding the value.
#[derive(Clone, Copy, PartialEq, Eq, Structural, Debug)]
pub enum Pointer {
    /// The pointer value itself.
    Direct(u64),
    /// The address at which the pointer value is stored.
    Indirect(u64),
}

/// The value a pointer resolves to in `mem`: an indirect pointer is the
/// word stored at its address.
pub open spec fn spec_deref_pointer(ptr: Pointer, mem: &Memory) -> Option<int> {
    match ptr {
        Pointer::Direct(x) => Some(x as int),
        Pointer::Indirect(x) => if mem.spec_range_in(x as int, 8) {
            Some(mem.spec_word_at(x as int))
        } else {
            None
        },
    }
}

/// Resolves a decoded pointer: a direct pointer is its value, an
/// indirect one is read from `mem`, and `None` if that read is out of
/// range.
pub fn deref_pointer(ptr: Pointer, mem: &Memory) -> (r: Option<u64>)
    requires
        mem.wf(),
    ensures
        match r {
            Some(v) => spec_deref_pointer(ptr, mem) == Some(v as int),
            None => spec_deref_pointer(ptr, mem) is None,
        },
{
    match ptr {
        Pointer::Direct(x) => Some(x),
        Pointer::Indirect(x) => mem.read_word(x),
    }
}

} // verus!
