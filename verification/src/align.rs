//! Rounding to power-of-two boundaries: the arithmetic meaning of the
//! mask operations that the address types use.

use vstd::arithmetic::div_mod::{
    lemma_fundamental_div_mod, lemma_fundamental_div_mod_converse, lemma_mod_breakdown,
    lemma_mod_multiples_basic,
};
use vstd::arithmetic::power2::is_pow2;
use vstd::prelude::*;

verus! {

/// The largest multiple of `step` that is at most `addr`.
pub open spec fn round_down(addr: int, step: int) -> int {
    addr - addr % step
}

/// The smallest multiple of `step` that is at least `addr`.
pub open spec fn round_up(addr: int, step: int) -> int {
    if addr % step == 0 {
        addr
    } else {
        addr - addr % step + step
    }
}

/// A number with a single bit set, which therefore shares no bit with its
/// predecessor, is a power of two.
pub proof fn lemma_single_bit_is_pow2(step: u64)
    requires
        step != 0,
        step & ((step - 1) as u64) == 0,
    ensures
        is_pow2(step as int),
    decreases step,
{
    reveal(is_pow2);
    if step != 1 {
        let half: u64 = step / 2;
        assert(step % 2 == 0 && half != 0 && half & ((half - 1) as u64) == 0) by (bit_vector)
            requires
                step != 0,
                step != 1,
                step & ((step - 1) as u64) == 0,
                half == step / 2,
        ;
        lemma_single_bit_is_pow2(half);
    }
}

/// Whether `step` is a power of two: what the rounding of addresses asks
/// of its step.
pub fn is_power_of_two(step: u64) -> (yes: bool)
    ensures
        yes == is_pow2(step as int),
        yes ==> step > 0,
{
    if step == 0 {
        proof {
            reveal(is_pow2);
        }
        false
    } else {
        let single = step & (step - 1) == 0;
        proof {
            if single {
                lemma_single_bit_is_pow2(step);
            } else if is_pow2(step as int) {
                lemma_low_bits_are_remainder(step, step);
            }
        }
        single
    }
}

/// The bits of `addr` below a power of two are its remainder by it.
pub proof fn lemma_low_bits_are_remainder(addr: u64, step: u64)
    requires
        is_pow2(step as int),
    ensures
        step > 0,
        addr & ((step - 1) as u64) == addr % step,
    decreases step,
{
    reveal(is_pow2);
    if step == 1 {
        assert(addr & ((1u64 - 1) as u64) == 0) by (bit_vector);
    } else {
        let half: u64 = step / 2;
        let rest: u64 = addr / 2;
        lemma_low_bits_are_remainder(rest, half);
        let low: u64 = rest & ((half - 1) as u64);
        assert(addr & ((step - 1) as u64) == 2 * low + addr % 2) by (bit_vector)
            requires
                step % 2 == 0,
                step != 0,
                half == step / 2,
                rest == addr / 2,
                low == rest & ((half - 1) as u64),
        ;
        lemma_mod_breakdown(addr as int, 2, half as int);
    }
}

/// Clearing the bits below a power of two rounds down to it.
pub proof fn lemma_mask_rounds_down(addr: u64, step: u64)
    requires
        is_pow2(step as int),
    ensures
        step > 0,
        addr & !((step - 1) as u64) == round_down(addr as int, step as int),
{
    lemma_low_bits_are_remainder(addr, step);
    let mask: u64 = (step - 1) as u64;
    assert(addr & !mask == addr - (addr & mask)) by (bit_vector);
}

/// Adding `step - 1` and then clearing the bits below `step` rounds up.
pub proof fn lemma_mask_rounds_up(addr: u64, step: u64)
    requires
        is_pow2(step as int),
        addr + step - 1 <= u64::MAX,
    ensures
        step > 0,
        ((addr + step - 1) as u64) & !((step - 1) as u64) == round_up(addr as int, step as int),
{
    let bumped: u64 = (addr + step - 1) as u64;
    lemma_mask_rounds_down(bumped, step);
    let a = addr as int;
    let s = step as int;
    lemma_fundamental_div_mod(a, s);
    if a % s == 0 {
        assert(a + s - 1 == (a / s) * s + (s - 1)) by (nonlinear_arith)
            requires
                a == s * (a / s),
        ;
        lemma_fundamental_div_mod_converse(a + s - 1, s, a / s, s - 1);
    } else {
        assert(a + s - 1 == (a / s + 1) * s + (a % s - 1)) by (nonlinear_arith)
            requires
                a == s * (a / s) + a % s,
        ;
        lemma_fundamental_div_mod_converse(a + s - 1, s, a / s + 1, a % s - 1);
    }
}

/// Rounding to a power of two brackets the address with multiples of the
/// step, and moves the address only if it is not a multiple already.
pub proof fn law_rounding(addr: int, step: int)
    requires
        is_pow2(step),
    ensures
        round_down(addr, step) <= addr <= round_up(addr, step),
        round_down(addr, step) % step == 0,
        round_up(addr, step) % step == 0,
        round_down(addr, step) == addr <==> addr % step == 0,
        round_up(addr, step) == addr <==> addr % step == 0,
        addr - round_down(addr, step) < step,
        round_up(addr, step) - addr < step,
{
    lemma_pow2_positive(step);
    lemma_fundamental_div_mod(addr, step);
    lemma_mod_multiples_basic(addr / step, step);
    lemma_mod_multiples_basic(addr / step + 1, step);
    assert(round_down(addr, step) == (addr / step) * step) by (nonlinear_arith)
        requires
            addr == step * (addr / step) + addr % step,
            round_down(addr, step) == addr - addr % step,
    ;
    assert(addr - addr % step + step == (addr / step + 1) * step) by (nonlinear_arith)
        requires
            addr == step * (addr / step) + addr % step,
    ;
}

/// A power of two is positive.
pub proof fn lemma_pow2_positive(step: int)
    requires
        is_pow2(step),
    ensures
        step > 0,
{
    reveal(is_pow2);
}

} // verus!
