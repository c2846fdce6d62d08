//! Alignment arithmetic: powers of two and rounding an address up.

use vstd::arithmetic::div_mod::lemma_breakdown;
use vstd::arithmetic::power2::is_pow2;
use vstd::prelude::*;

verus! {

/// The smallest multiple of `alignment` that is not below `addr`.
pub open spec fn align_up(addr: int, alignment: int) -> int {
    if addr % alignment == 0 {
        addr
    } else {
        addr + (alignment - addr % alignment)
    }
}

/// `align_up` is a multiple of the alignment, and lies less than one
/// alignment above the address.
pub proof fn lemma_align_up_is_multiple(addr: int, alignment: int)
    requires
        alignment > 0,
    ensures
        align_up(addr, alignment) % alignment == 0,
        addr <= align_up(addr, alignment) < addr + alignment,
{
    let r = addr % alignment;
    let up = align_up(addr, alignment);
    assert(0 <= r < alignment && up % alignment == 0) by (nonlinear_arith)
        requires
            alignment > 0,
            r == addr % alignment,
            up == if r == 0 { addr } else { addr + (alignment - r) },
    ;
}

/// No multiple `m` of the alignment that is at or above the address lies
/// below `align_up`.
pub proof fn lemma_align_up_is_least(addr: int, alignment: int, m: int)
    requires
        alignment > 0,
        addr <= m,
        m % alignment == 0,
    ensures
        align_up(addr, alignment) <= m,
{
    lemma_align_up_is_multiple(addr, alignment);
    let up = align_up(addr, alignment);
    assert(up <= m) by (nonlinear_arith)
        requires
            alignment > 0,
            addr <= m,
            m % alignment == 0,
            up % alignment == 0,
            addr <= up < addr + alignment,
    ;
}

/// A nonzero number has a single bit set exactly when it is a power of two.
pub proof fn lemma_single_bit_is_pow2(n: usize)
    ensures
        (n != 0 && n & ((n - 1) as usize) == 0) <==> is_pow2(n as int),
    decreases n,
{
    reveal(is_pow2);
    if n == 1 {
        assert(1usize & 0usize == 0) by (bit_vector);
    } else if n > 1 {
        let half: usize = n / 2;
        assert(n & ((n - 1) as usize) == 0 <==> n % 2 == 0 && half & ((half - 1) as usize) == 0)
            by (bit_vector)
            requires
                n > 1,
                half == n / 2,
        ;
        lemma_single_bit_is_pow2(half);
    }
}

/// Below a power of two, masking keeps exactly the remainder.
pub proof fn lemma_low_bits_are_remainder(x: usize, alignment: usize)
    requires
        is_pow2(alignment as int),
    ensures
        x & ((alignment - 1) as usize) == x % alignment,
    decreases alignment,
{
    reveal(is_pow2);
    if alignment == 1 {
        assert(x & 0usize == 0) by (bit_vector);
    } else {
        let half: usize = alignment / 2;
        let rest: usize = x / 2;
        lemma_low_bits_are_remainder(rest, half);
        assert(x & ((alignment - 1) as usize) == 2 * (rest & ((half - 1) as usize)) + x % 2)
            by (bit_vector)
            requires
                alignment >= 2,
                alignment % 2 == 0,
                half == alignment / 2,
                rest == x / 2,
        ;
        lemma_breakdown(x as int, 2, half as int);
    }
}

/// Whether `n` is a power of two.
pub fn is_power_of_two(n: usize) -> (yes: bool)
    ensures
        yes == is_pow2(n as int),
{
    proof {
        lemma_single_bit_is_pow2(n);
    }
    n != 0 && n & (n - 1) == 0
}

/// Rounds `addr` up to the next multiple of a power of two.
pub fn round_up(addr: usize, alignment: usize) -> (aligned: usize)
    requires
        is_pow2(alignment as int),
        addr + alignment - 1 <= usize::MAX,
    ensures
        aligned == align_up(addr as int, alignment as int),
{
    proof {
        reveal(is_pow2);
    }
    let mask: usize = alignment - 1;
    let top: usize = addr + mask;
    proof {
        lemma_low_bits_are_remainder(top, alignment);
        assert(top & !mask == top - (top & mask)) by (bit_vector);
        let a = alignment as int;
        let r = addr as int % a;
        let t = top as int % a;
        assert(top - t == align_up(addr as int, a)) by (nonlinear_arith)
            requires
                a > 0,
                top == addr + a - 1,
                r == addr as int % a,
                t == top as int % a,
        ;
    }
    top & !mask
}

} // verus!
