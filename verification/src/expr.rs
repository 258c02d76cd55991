//! A DWARF expression evaluator for call-frame expressions.
//!
//! `DW_CFA_def_cfa_expression` and the expression register rules carry
//! a small stack program.  The operations evaluated here are the ones
//! compilers emit into call-frame expressions: literals, register
//! values plus offset, memory dereference, and word arithmetic.  The
//! result is the value left on top of the stack; an unknown operation
//! or an exhausted stack is an error, never undefined behaviour.

use crate::arch::{Context, NUM_REGS};
use crate::encoding::{pow_byte, read_le_value, spec_le_value, spec_sext};
use crate::mem::Memory;
use crate::util::{read_sleb128, read_uleb128, spec_sleb128, spec_uleb128};
use vstd::prelude::*;

verus! {

/// The value of the expression in `s[pos..end]`, evaluated over the
/// register file `regs`, the memory `mem`, and the value stack
/// `stack`; `None` on any malformed or unsupported program.
pub open spec fn spec_eval(
    s: Seq<u8>,
    pos: int,
    end: int,
    regs: Seq<u64>,
    mem: &Memory,
    stack: Seq<u64>,
) -> Option<u64>
    decreases end - pos,
{
    if pos == end {
        if stack.len() == 0 {
            None
        } else {
            Some(stack.last())
        }
    } else if !(0 <= pos < end <= s.len()) {
        None
    } else {
        let b = s[pos];
        if b == 0x03 {
            // DW_OP_addr
            if pos + 9 <= end {
                spec_eval(
                    s,
                    pos + 9,
                    end,
                    regs,
                    mem,
                    stack.push(spec_le_value(s, pos + 1, 8) as u64),
                )
            } else {
                None
            }
        } else if b == 0x06 {
            // DW_OP_deref
            if stack.len() == 0 {
                None
            } else if mem.spec_range_in(stack.last() as int, 8) {
                spec_eval(
                    s,
                    pos + 1,
                    end,
                    regs,
                    mem,
                    stack.drop_last().push(mem.spec_word_at(stack.last() as int) as u64),
                )
            } else {
                None
            }
        } else if b == 0x08 {
            // const1u
            if pos + 2 <= end {
                spec_eval(s, pos + 2, end, regs, mem, stack.push(spec_le_value(s, pos + 1, 1) as u64))
            } else {
                None
            }
        } else if b == 0x09 {
            // const1s
            if pos + 2 <= end {
                spec_eval(
                    s,
                    pos + 2,
                    end,
                    regs,
                    mem,
                    stack.push(spec_sext(spec_le_value(s, pos + 1, 1), 1) as u64),
                )
            } else {
                None
            }
        } else if b == 0x0a {
            // const2u
            if pos + 3 <= end {
                spec_eval(s, pos + 3, end, regs, mem, stack.push(spec_le_value(s, pos + 1, 2) as u64))
            } else {
                None
            }
        } else if b == 0x0b {
            // const2s
            if pos + 3 <= end {
                spec_eval(
                    s,
                    pos + 3,
                    end,
                    regs,
                    mem,
                    stack.push(spec_sext(spec_le_value(s, pos + 1, 2), 2) as u64),
                )
            } else {
                None
            }
        } else if b == 0x0c {
            // const4u
            if pos + 5 <= end {
                spec_eval(s, pos + 5, end, regs, mem, stack.push(spec_le_value(s, pos + 1, 4) as u64))
            } else {
                None
            }
        } else if b == 0x0d {
            // const4s
            if pos + 5 <= end {
                spec_eval(
                    s,
                    pos + 5,
                    end,
                    regs,
                    mem,
                    stack.push(spec_sext(spec_le_value(s, pos + 1, 4), 4) as u64),
                )
            } else {
                None
            }
        } else if b == 0x0e {
            // const8u
            if pos + 9 <= end {
                spec_eval(s, pos + 9, end, regs, mem, stack.push(spec_le_value(s, pos + 1, 8) as u64))
            } else {
                None
            }
        } else if b == 0x10 {
            // constu
            match spec_uleb128(s, pos + 1) {
                Some((v, n)) => if v <= u64::MAX && pos < n <= end {
                    spec_eval(s, n, end, regs, mem, stack.push(v as u64))
                } else {
                    None
                },
                None => None,
            }
        } else if b == 0x11 {
            // consts
            match spec_sleb128(s, pos + 1) {
                Some((v, n)) => if i64::MIN <= v <= i64::MAX && pos < n <= end {
                    spec_eval(
                        s,
                        n,
                        end,
                        regs,
                        mem,
                        stack.push((if v < 0 {
                            v + 0x1_0000_0000_0000_0000
                        } else {
                            v
                        }) as u64),
                    )
                } else {
                    None
                },
                None => None,
            }
        } else if b == 0x12 {
            // dup
            if stack.len() == 0 {
                None
            } else {
                spec_eval(s, pos + 1, end, regs, mem, stack.push(stack.last()))
            }
        } else if b == 0x13 {
            // drop
            if stack.len() == 0 {
                None
            } else {
                spec_eval(s, pos + 1, end, regs, mem, stack.drop_last())
            }
        } else if b == 0x16 {
            // swap
            if stack.len() < 2 {
                None
            } else {
                let a = stack.last();
                let c = stack[stack.len() - 2];
                spec_eval(s, pos + 1, end, regs, mem, stack.drop_last().drop_last().push(a).push(c))
            }
        } else if b == 0x1a || b == 0x1c || b == 0x1e || b == 0x21 || b == 0x22 || b == 0x24 || b
            == 0x25 || b == 0x27 {
            // binary: and, minus, mul, or, plus, shl, shr, xor
            if stack.len() < 2 {
                None
            } else {
                let rhs = stack.last();
                let lhs = stack[stack.len() - 2];
                let base = stack.drop_last().drop_last();
                let v: Option<u64> = if b == 0x1a {
                    Some(lhs & rhs)
                } else if b == 0x1c {
                    Some(lhs.wrapping_sub(rhs))
                } else if b == 0x1e {
                    Some(lhs.wrapping_mul(rhs))
                } else if b == 0x21 {
                    Some(lhs | rhs)
                } else if b == 0x22 {
                    Some(lhs.wrapping_add(rhs))
                } else if b == 0x24 {
                    if rhs < 64 {
                        Some(lhs << rhs)
                    } else {
                        None
                    }
                } else if b == 0x25 {
                    if rhs < 64 {
                        Some(lhs >> rhs)
                    } else {
                        None
                    }
                } else {
                    Some(lhs ^ rhs)
                };
                match v {
                    Some(v) => spec_eval(s, pos + 1, end, regs, mem, base.push(v)),
                    None => None,
                }
            }
        } else if b == 0x1f {
            // neg
            if stack.len() == 0 {
                None
            } else {
                spec_eval(
                    s,
                    pos + 1,
                    end,
                    regs,
                    mem,
                    stack.drop_last().push((0u64).wrapping_sub(stack.last())),
                )
            }
        } else if b == 0x20 {
            // not
            if stack.len() == 0 {
                None
            } else {
                spec_eval(s, pos + 1, end, regs, mem, stack.drop_last().push(!stack.last()))
            }
        } else if b == 0x23 {
            // plus_uconst
            if stack.len() == 0 {
                None
            } else {
                match spec_uleb128(s, pos + 1) {
                    Some((v, n)) => if v <= u64::MAX && pos < n <= end {
                        spec_eval(
                            s,
                            n,
                            end,
                            regs,
                            mem,
                            stack.drop_last().push(stack.last().wrapping_add(v as u64)),
                        )
                    } else {
                        None
                    },
                    None => None,
                }
            }
        } else if 0x30 <= b < 0x50 {
            // lit0..lit31
            spec_eval(s, pos + 1, end, regs, mem, stack.push((b - 0x30) as u64))
        } else if 0x70 <= b < 0x90 {
            // breg0..breg31
            let r = (b - 0x70) as int;
            if r >= NUM_REGS {
                None
            } else {
                match spec_sleb128(s, pos + 1) {
                    Some((o, n)) => if i64::MIN <= o <= i64::MAX && pos < n <= end {
                        spec_eval(
                            s,
                            n,
                            end,
                            regs,
                            mem,
                            stack.push(regs[r].wrapping_add_signed(o as i64)),
                        )
                    } else {
                        None
                    },
                    None => None,
                }
            }
        } else if b == 0x92 {
            // bregx
            match spec_uleb128(s, pos + 1) {
                Some((r, n)) => if r < NUM_REGS {
                    match spec_sleb128(s, n) {
                        Some((o, n2)) => if i64::MIN <= o <= i64::MAX && pos < n2 <= end {
                            spec_eval(
                                s,
                                n2,
                                end,
                                regs,
                                mem,
                                stack.push(regs[r as int].wrapping_add_signed(o as i64)),
                            )
                        } else {
                            None
                        },
                        None => None,
                    }
                } else {
                    None
                },
                None => None,
            }
        } else {
            None
        }
    }
}

/// Exec twin of [`spec_eval`].
#[verifier::rlimit(100)]
fn eval_rec(
    s: &Vec<u8>,
    pos: usize,
    end: usize,
    ctx: &Context,
    mem: &Memory,
    stack: Vec<u64>,
) -> (r: Option<u64>)
    requires
        mem.wf(),
    ensures
        match r {
            Some(v) => spec_eval(s@, pos as int, end as int, ctx@, mem, stack@) == Some(v),
            None => spec_eval(s@, pos as int, end as int, ctx@, mem, stack@) is None,
        },
    decreases end - pos,
{
    proof {
        reveal_with_fuel(pow_byte, 5);
    }
    if pos == end {
        let mut stack = stack;
        return stack.pop();
    }
    if pos > end || end > s.len() {
        return None;
    }
    let b = s[pos];
    if b == 0x03 || b == 0x0e {
        match read_le_value(s, pos + 1, 8) {
            Some((v, n)) => if n <= end {
                let mut stack = stack;
                stack.push(v);
                eval_rec(s, n, end, ctx, mem, stack)
            } else {
                None
            },
            None => None,
        }
    } else if b == 0x06 {
        let mut stack = stack;
        match stack.pop() {
            None => None,
            Some(a) => match mem.read_word(a) {
                None => None,
                Some(w) => {
                    stack.push(w);
                    eval_rec(s, pos + 1, end, ctx, mem, stack)
                },
            },
        }
    } else if b == 0x08 || b == 0x09 {
        match read_le_value(s, pos + 1, 1) {
            Some((v, n)) => if n <= end {
                let mut stack = stack;
                let v = if b == 0x09 && v >= 0x80 {
                    v + 0xffff_ffff_ffff_ff00
                } else {
                    v
                };
                stack.push(v);
                eval_rec(s, n, end, ctx, mem, stack)
            } else {
                None
            },
            None => None,
        }
    } else if b == 0x0a || b == 0x0b {
        match read_le_value(s, pos + 1, 2) {
            Some((v, n)) => if n <= end {
                let mut stack = stack;
                let v = if b == 0x0b && v >= 0x8000 {
                    v + 0xffff_ffff_ffff_0000
                } else {
                    v
                };
                stack.push(v);
                eval_rec(s, n, end, ctx, mem, stack)
            } else {
                None
            },
            None => None,
        }
    } else if b == 0x0c || b == 0x0d {
        match read_le_value(s, pos + 1, 4) {
            Some((v, n)) => if n <= end {
                let mut stack = stack;
                let v = if b == 0x0d && v >= 0x8000_0000 {
                    v + 0xffff_ffff_0000_0000
                } else {
                    v
                };
                stack.push(v);
                eval_rec(s, n, end, ctx, mem, stack)
            } else {
                None
            },
            None => None,
        }
    } else if b == 0x10 {
        match read_uleb128(s, pos + 1) {
            Some((v, n)) => if n <= end {
                let mut stack = stack;
                stack.push(v);
                eval_rec(s, n, end, ctx, mem, stack)
            } else {
                None
            },
            None => None,
        }
    } else if b == 0x11 {
        match read_sleb128(s, pos + 1) {
            Some((v, n)) => if n <= end {
                let uv: u64 = if v >= 0 {
                    v as u64
                } else {
                    ((v as i128) + 0x1_0000_0000_0000_0000i128) as u64
                };
                let mut stack = stack;
                stack.push(uv);
                eval_rec(s, n, end, ctx, mem, stack)
            } else {
                None
            },
            None => None,
        }
    } else if b == 0x12 {
        if stack.len() == 0 {
            None
        } else {
            let mut stack = stack;
            let a = stack[stack.len() - 1];
            stack.push(a);
            eval_rec(s, pos + 1, end, ctx, mem, stack)
        }
    } else if b == 0x13 {
        let mut stack = stack;
        match stack.pop() {
            None => None,
            Some(_) => eval_rec(s, pos + 1, end, ctx, mem, stack),
        }
    } else if b == 0x16 {
        if stack.len() < 2 {
            None
        } else {
            let ghost st0 = stack@;
            let mut stack = stack;
            let a = stack.pop().unwrap();
            let c = stack.pop().unwrap();
            stack.push(a);
            stack.push(c);
            proof {
                assert(stack@ =~= st0.drop_last().drop_last().push(st0.last()).push(
                    st0[st0.len() - 2],
                ));
            }
            eval_rec(s, pos + 1, end, ctx, mem, stack)
        }
    } else if b == 0x1a || b == 0x1c || b == 0x1e || b == 0x21 || b == 0x22 || b == 0x24 || b
        == 0x25 || b == 0x27 {
        if stack.len() < 2 {
            None
        } else {
            let mut stack = stack;
            let rhs = stack.pop().unwrap();
            let lhs = stack.pop().unwrap();
            let v: Option<u64> = if b == 0x1a {
                Some(lhs & rhs)
            } else if b == 0x1c {
                Some(lhs.wrapping_sub(rhs))
            } else if b == 0x1e {
                Some(lhs.wrapping_mul(rhs))
            } else if b == 0x21 {
                Some(lhs | rhs)
            } else if b == 0x22 {
                Some(lhs.wrapping_add(rhs))
            } else if b == 0x24 {
                if rhs < 64 {
                    Some(lhs << rhs)
                } else {
                    None
                }
            } else if b == 0x25 {
                if rhs < 64 {
                    Some(lhs >> rhs)
                } else {
                    None
                }
            } else {
                Some(lhs ^ rhs)
            };
            match v {
                Some(v) => {
                    stack.push(v);
                    eval_rec(s, pos + 1, end, ctx, mem, stack)
                },
                None => None,
            }
        }
    } else if b == 0x1f {
        let mut stack = stack;
        match stack.pop() {
            None => None,
            Some(a) => {
                stack.push((0u64).wrapping_sub(a));
                eval_rec(s, pos + 1, end, ctx, mem, stack)
            },
        }
    } else if b == 0x20 {
        let mut stack = stack;
        match stack.pop() {
            None => None,
            Some(a) => {
                stack.push(!a);
                eval_rec(s, pos + 1, end, ctx, mem, stack)
            },
        }
    } else if b == 0x23 {
        let mut stack = stack;
        match stack.pop() {
            None => None,
            Some(a) => match read_uleb128(s, pos + 1) {
                Some((v, n)) => if n <= end {
                    stack.push(a.wrapping_add(v));
                    eval_rec(s, n, end, ctx, mem, stack)
                } else {
                    None
                },
                None => None,
            },
        }
    } else if 0x30 <= b && b < 0x50 {
        let mut stack = stack;
        stack.push((b - 0x30) as u64);
        eval_rec(s, pos + 1, end, ctx, mem, stack)
    } else if 0x70 <= b && b < 0x90 {
        let r = (b - 0x70) as u16;
        if r >= NUM_REGS as u16 {
            None
        } else {
            match read_sleb128(s, pos + 1) {
                Some((o, n)) => if n <= end {
                    let mut stack = stack;
                    stack.push(ctx.get(r).wrapping_add_signed(o));
                    eval_rec(s, n, end, ctx, mem, stack)
                } else {
                    None
                },
                None => None,
            }
        }
    } else if b == 0x92 {
        proof {
            crate::util::lemma_uleb128_bounds(s@, pos + 1);
        }
        match read_uleb128(s, pos + 1) {
            Some((r, n)) => if r < NUM_REGS as u64 {
                match read_sleb128(s, n) {
                    Some((o, n2)) => if n2 <= end {
                        let mut stack = stack;
                        stack.push(ctx.get(r as u16).wrapping_add_signed(o));
                        eval_rec(s, n2, end, ctx, mem, stack)
                    } else {
                        None
                    },
                    None => None,
                }
            } else {
                None
            },
            None => None,
        }
    } else {
        None
    }
}

/// Evaluates the call-frame expression in `s[pos..end]` over the
/// register file and memory, as the address or value it leaves on top
/// of its stack.
pub fn evaluate_expression(s: &Vec<u8>, pos: usize, end: usize, ctx: &Context, mem: &Memory) -> (r:
    Option<u64>)
    requires
        mem.wf(),
    ensures
        match r {
            Some(v) => spec_eval(s@, pos as int, end as int, ctx@, mem, Seq::empty()) == Some(v),
            None => spec_eval(s@, pos as int, end as int, ctx@, mem, Seq::empty()) is None,
        },
{
    let stack: Vec<u64> = Vec::new();
    proof {
        assert(stack@ =~= Seq::<u64>::empty());
    }
    eval_rec(s, pos, end, ctx, mem, stack)
}

} // verus!
