//! Stack-frame allocation, modelled over the arena.
//!
//! The machine-level scheme drops the stack pointer by the requested size,
//! masks it down to the alignment, runs a callback in the new frame, and
//! restores the pointer afterwards — regardless of what the callback did.
//! Here the stack pointer is an explicit address into the arena, and each
//! supported architecture computes the same frame address.

use vstd::arithmetic::div_mod::{
    lemma_fundamental_div_mod, lemma_mod_division_less_than_divisor, lemma_mod_multiples_basic,
};
use vstd::prelude::*;

verus! {

/// Whether `n` is a power of two.
pub open spec fn spec_is_pow2(n: int) -> bool
    decreases n,
{
    if n <= 0 {
        false
    } else if n == 1 {
        true
    } else {
        n % 2 == 0 && spec_is_pow2(n / 2)
    }
}

/// Decide whether `x` is a power of two.
pub fn is_pow2(x: usize) -> (r: bool)
    ensures
        r == spec_is_pow2(x as int),
{
    if x == 0 {
        return false;
    }
    let mut v: usize = x;
    while v % 2 == 0 && v > 1
        invariant
            v >= 1,
            spec_is_pow2(x as int) == spec_is_pow2(v as int),
        decreases v,
    {
        v = v / 2;
    }
    v == 1
}

/// A power of two divides every larger power of two.
pub proof fn lemma_pow2_divides(a: int, b: int)
    requires
        spec_is_pow2(a),
        spec_is_pow2(b),
        a <= b,
    ensures
        b % a == 0,
    decreases a,
{
    if a == 1 {
        assert(b % 1 == 0);
    } else {
        if a == b {
            lemma_mod_multiples_basic(1, a);
        } else {
            assert(b != 1);
            lemma_pow2_divides(a / 2, b / 2);
            let k = (b / 2) / (a / 2);
            lemma_fundamental_div_mod(b / 2, a / 2);
            assert(b / 2 == k * (a / 2));
            assert(b == 2 * (b / 2) && a == 2 * (a / 2)) by (nonlinear_arith)
                requires
                    b % 2 == 0,
                    a % 2 == 0,
                    b >= 2,
                    a >= 2,
            ;
            assert(b == k * a) by (nonlinear_arith)
                requires
                    b == 2 * (b / 2),
                    a == 2 * (a / 2),
                    b / 2 == k * (a / 2),
            ;
            lemma_mod_multiples_basic(k, a);
        }
    }
}

/// A power of two is at least one.
pub proof fn lemma_pow2_pos(a: int)
    requires
        spec_is_pow2(a),
    ensures
        a >= 1,
{
}

/// The frame address the stack allocator hands out: the stack pointer
/// dropped by `size`, aligned down to `max(16, align)`.
pub open spec fn spec_stack_addr(sp: int, size: int, align: int) -> int {
    let m = if align < 16 {
        16int
    } else {
        align
    };
    (sp - size) - (sp - size) % m
}

/// The frame address is aligned, sits below the stack pointer, and leaves
/// room for `size` bytes.
pub proof fn lemma_stack_addr_facts(sp: int, size: int, align: int)
    requires
        spec_is_pow2(align),
        0 <= size <= sp,
    ensures
        0 <= spec_stack_addr(sp, size, align),
        spec_stack_addr(sp, size, align) + size <= sp,
        spec_stack_addr(sp, size, align) % align == 0,
{
    let m = if align < 16 {
        16int
    } else {
        align
    };
    let x = sp - size;
    assert(spec_is_pow2(16)) by {
        reveal_with_fuel(spec_is_pow2, 6);
    }
    lemma_pow2_pos(align);
    lemma_mod_division_less_than_divisor(x, m);
    let addr = x - x % m;
    lemma_fundamental_div_mod(x, m);
    assert(addr == m * (x / m));
    lemma_mod_multiples_basic(x / m, m);
    assert((m * (x / m)) % m == 0);
    if align < 16 {
        lemma_pow2_divides(align, 16);
    }
    let k = m / align;
    lemma_fundamental_div_mod(m, align);
    assert(m == k * align);
    assert(addr == (k * (x / m)) * align) by (nonlinear_arith)
        requires
            addr == m * (x / m),
            m == k * align,
    ;
    lemma_mod_multiples_basic(k * (x / m), align);
}

/// One architecture's way of carving a frame out of the machine stack.
///
/// Every supported architecture computes the same frame address; the
/// real machines differ only in the instructions that move the stack
/// pointer and call into the frame.
pub trait StackFrameAllocSeal {

}

/// Architecture hook of the stack allocator.
pub trait StackFrameAlloc: StackFrameAllocSeal {
    /// The address of a fresh frame of `size` bytes below `sp`.
    fn stack_alloc(sp: usize, size: usize, align: usize) -> (r: usize)
        requires
            spec_is_pow2(align as int),
            1 <= size <= sp,
        ensures
            r == spec_stack_addr(sp as int, size as int, align as int),
            r as int % align as int == 0,
            r + size <= sp,
    ;
}

/// The x86-64 frame computation.
pub struct StackFrameAllocAMD64;

impl StackFrameAllocSeal for StackFrameAllocAMD64 {

}

impl StackFrameAlloc for StackFrameAllocAMD64 {
    fn stack_alloc(sp: usize, size: usize, align: usize) -> (r: usize) {
        proof {
            lemma_stack_addr_facts(sp as int, size as int, align as int);
        }
        let m = if align < 16 {
            16
        } else {
            align
        };
        (sp - size) - (sp - size) % m
    }
}

/// The RISC-V frame computation.
pub struct StackFrameAllocRiscv;

impl StackFrameAllocSeal for StackFrameAllocRiscv {

}

impl StackFrameAlloc for StackFrameAllocRiscv {
    fn stack_alloc(sp: usize, size: usize, align: usize) -> (r: usize) {
        proof {
            lemma_stack_addr_facts(sp as int, size as int, align as int);
        }
        let m = if align < 16 {
            16
        } else {
            align
        };
        (sp - size) - (sp - size) % m
    }
}

/// Run `f` in a fresh stack frame of `size` bytes aligned to `align`.
///
/// The stack pointer is dropped for the duration of the call and restored
/// afterwards: on return it equals its value on entry, whatever `f` did.
pub fn with_stacked_alloc<I: StackFrameAlloc, R, F: FnOnce(usize) -> R>(
    sp: &mut usize,
    size: usize,
    align: usize,
    f: F,
) -> (r: R)
    requires
        spec_is_pow2(align as int),
        1 <= size <= *old(sp),
        call_requires(
            f,
            (spec_stack_addr(*old(sp) as int, size as int, align as int) as usize,),
        ),
    ensures
        *final(sp) == *old(sp),
        call_ensures(
            f,
            (spec_stack_addr(*old(sp) as int, size as int, align as int) as usize,),
            r,
        ),
{
    proof {
        lemma_stack_addr_facts(*sp as int, size as int, align as int);
    }
    let saved: usize = *sp;
    let addr = I::stack_alloc(saved, size, align);
    *sp = addr;
    let ret = f(addr);
    *sp = saved;
    ret
}

} // verus!
