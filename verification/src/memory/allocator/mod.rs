//! Allocation helpers.

pub mod boxed;
pub mod tracker;

use vstd::prelude::*;

use crate::memory::VirtAddr;

verus! {

/// The kernel's global allocator.
#[derive(Copy, Clone, Debug)]
pub struct Global;

/// Allocation error.
#[derive(Copy, Clone, Debug)]
pub struct AllocError;

/// `n` is a power of two.
pub open spec fn is_pow2(n: int) -> bool
    decreases n,
{
    if n <= 0 {
        false
    } else if n == 1 {
        true
    } else {
        n % 2 == 0 && is_pow2(n / 2)
    }
}

/// A positive `n` is a power of two exactly when clearing its lowest set
/// bit leaves nothing.
proof fn lemma_pow2_bits(n: usize)
    requires
        n > 0,
    ensures
        (n & ((n - 1) as usize) == 0) == is_pow2(n as int),
    decreases n,
{
    if n == 1 {
        assert(1usize & 0usize == 0) by (bit_vector);
    } else if n % 2 == 1 {
        assert(n & ((n - 1) as usize) != 0) by (bit_vector)
            requires
                n % 2 == 1,
                n > 1,
        ;
    } else {
        let h: usize = n / 2;
        lemma_pow2_bits(h);
        assert((n & ((n - 1) as usize) == 0) == (h & ((h - 1) as usize) == 0)) by (bit_vector)
            requires
                h == n / 2,
                n % 2 == 0,
                n > 0,
        ;
    }
}

/// Whether `n` is a power of two.
fn is_power_of_two(n: usize) -> (res: bool)
    ensures
        res == is_pow2(n as int),
{
    if n == 0 {
        return false;
    }
    proof {
        lemma_pow2_bits(n);
    }
    n & (n - 1) == 0
}

proof fn lemma_pow2_shift(n: int)
    requires
        is_pow2(n),
        n <= u32::MAX,
    ensures
        exists|k: u32| k < 32 && n == #[trigger] (1u32 << k),
    decreases n,
{
    if n == 1 {
        assert(1u32 << 0u32 == 1u32) by (bit_vector);
    } else {
        lemma_pow2_shift(n / 2);
        let k = choose|k: u32| k < 32 && n / 2 == #[trigger] (1u32 << k);
        assert(k < 31) by {
            if k == 31 {
                assert(1u32 << 31u32 == 0x8000_0000u32) by (bit_vector);
            }
        }
        assert((1u32 << k) * 2 == 1u32 << ((k + 1) as u32)) by (bit_vector)
            requires
                k < 31,
        ;
        assert(n == 1u32 << ((k + 1) as u32));
    }
}

proof fn lemma_mask(a: u32, m: u32)
    requires
        is_pow2(m as int),
    ensures
        (a & !((m - 1) as u32)) % m == 0,
        (a & !((m - 1) as u32)) <= a,
        a - (a & !((m - 1) as u32)) < m,
{
    lemma_pow2_shift(m as int);
    let k = choose|k: u32| k < 32 && m == #[trigger] (1u32 << k);
    assert((a & !(((1u32 << k) - 1) as u32)) % (1u32 << k) == 0 && (a & !(((1u32 << k) - 1) as u32)) <= a
        && a - (a & !(((1u32 << k) - 1) as u32)) < (1u32 << k)) by (bit_vector)
        requires
            k < 32,
    ;
}

/// `addr` rounded down to a multiple of `align`, a power of two (or 0,
/// which leaves `addr` as it is).
fn align_down(addr: VirtAddr, align: usize) -> (res: VirtAddr)
    requires
        align == 0 || is_pow2(align as int),
        align <= u32::MAX,
    ensures
        align == 0 ==> res == addr,
        align != 0 ==> (res as int) % (align as int) == 0 && res <= addr && addr - res < align,
{
    if is_power_of_two(align) {
        let m: u32 = align as u32;
        proof {
            lemma_mask(addr, m);
        }
        addr & !(m - 1)
    } else {
        proof {
            assert(!is_pow2(0));
        }
        addr
    }
}

/// `addr` rounded up to a multiple of `align`, a power of two.
fn align_up(addr: VirtAddr, align: usize) -> (res: VirtAddr)
    requires
        is_pow2(align as int),
        addr + align <= u32::MAX,
    ensures
        (res as int) % (align as int) == 0,
        addr <= res < addr + align,
{
    let m: u32 = align as u32;
    proof {
        assert(!is_pow2(0));
    }
    let up: u32 = addr + m - 1;
    proof {
        lemma_mask(up, m);
    }
    up & !(m - 1)
}

} // verus!
