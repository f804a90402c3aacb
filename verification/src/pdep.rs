//! Parallel bit deposit, and the Morton spreading it yields on the masks of
//! alternating bits.

use vstd::prelude::*;
use vstd::arithmetic::power2::{pow2, lemma_pow2_unfold, lemma_pow2_pos};

verus! {

/// The mask with every even bit position set.
pub const EVEN_BITS: u64 = 0x5555_5555_5555_5555;

/// The mask with every odd bit position set.
pub const ODD_BITS: u64 = 0xAAAA_AAAA_AAAA_AAAA;

/// Bit deposit: walking the positions of `mask` from the lowest up, every set
/// position receives the next unused low bit of `x`; clear positions stay 0.
pub open spec fn pdep_spec(x: nat, mask: nat) -> nat
    decreases mask,
{
    if mask == 0 {
        0
    } else if mask % 2 == 1 {
        x % 2 + 2 * pdep_spec(x / 2, mask / 2)
    } else {
        2 * pdep_spec(x, mask / 2)
    }
}

/// The bits of `x` moved from position `i` to position `2 * i`.
pub open spec fn spread(x: nat) -> nat
    decreases x,
{
    if x == 0 {
        0
    } else {
        x % 2 + 4 * spread(x / 2)
    }
}

/// The number with the `n` lowest even bit positions set: `(4^n - 1) / 3`.
pub open spec fn even_mask(n: nat) -> nat
    decreases n,
{
    if n == 0 {
        0
    } else {
        4 * even_mask((n - 1) as nat) + 1
    }
}

/// A deposit never exceeds its mask.
pub proof fn lemma_pdep_le_mask(x: nat, mask: nat)
    ensures
        pdep_spec(x, mask) <= mask,
    decreases mask,
{
    if mask != 0 {
        if mask % 2 == 1 {
            lemma_pdep_le_mask(x / 2, mask / 2);
        } else {
            lemma_pdep_le_mask(x, mask / 2);
        }
    }
}

/// Depositing into a doubled mask doubles the deposit.
pub proof fn lemma_pdep_double_mask(x: nat, mask: nat)
    ensures
        pdep_spec(x, 2 * mask) == 2 * pdep_spec(x, mask),
{
    if mask != 0 {
        assert((2 * mask) % 2 == 0);
        assert((2 * mask) / 2 == mask);
    }
}

/// On the `n` lowest even positions, a deposit of a number below `2^n` is its
/// spreading.
pub proof fn lemma_pdep_even_mask(x: nat, n: nat)
    requires
        x < pow2(n),
    ensures
        pdep_spec(x, even_mask(n)) == spread(x),
    decreases n,
{
    if n == 0 {
        lemma_pow2_unfold(1);
        assert(pow2(0) == 1) by {
            vstd::arithmetic::power2::lemma2_to64();
        }
    } else {
        let lower = even_mask((n - 1) as nat);
        let mask = even_mask(n);
        lemma_pow2_unfold(n);
        assert(mask % 2 == 1);
        assert(mask / 2 == 2 * lower);
        lemma_pdep_double_mask(x / 2, lower);
        lemma_pdep_even_mask(x / 2, (n - 1) as nat);
    }
}

/// The two constant masks are the 32 even positions and their double.
pub proof fn lemma_alternating_masks()
    ensures
        EVEN_BITS == even_mask(32),
        ODD_BITS == 2 * even_mask(32),
{
    reveal_with_fuel(even_mask, 33);
}

/// The spreading of `2^n - 1` sets the `n` lowest even positions.
pub proof fn lemma_spread_low_ones(n: nat)
    ensures
        pow2(n) >= 1,
        spread((pow2(n) - 1) as nat) == even_mask(n),
    decreases n,
{
    lemma_pow2_pos(n);
    if n == 0 {
        assert(pow2(0) == 1) by {
            vstd::arithmetic::power2::lemma2_to64();
        }
    } else {
        lemma_pow2_unfold(n);
        lemma_pow2_pos((n - 1) as nat);
        lemma_spread_low_ones((n - 1) as nat);
        let ones = (pow2(n) - 1) as nat;
        let below = (pow2((n - 1) as nat) - 1) as nat;
        assert(ones == 2 * below + 1);
        assert(ones % 2 == 1);
        assert(ones / 2 == below);
    }
}

/// Spreading is monotone up to the full mask: below `2^n` it stays within the
/// `n` lowest even positions.
pub proof fn lemma_spread_bound(x: nat, n: nat)
    requires
        x < pow2(n),
    ensures
        spread(x) <= even_mask(n),
    decreases n,
{
    if n == 0 {
        assert(pow2(0) == 1) by {
            vstd::arithmetic::power2::lemma2_to64();
        }
    } else {
        lemma_pow2_unfold(n);
        if x != 0 {
            lemma_spread_bound(x / 2, (n - 1) as nat);
        }
    }
}

/// Software bit deposit (the BMI2 `pdep` operation).
pub fn pdep(x: u64, mask: u64) -> (r: u64)
    ensures
        r == pdep_spec(x as nat, mask as nat),
{
    let mut result: u64 = 0;
    let mut source: u64 = x;
    let mut rest: u64 = mask;
    let mut weight: u64 = 1;
    proof {
        lemma_pdep_le_mask(x as nat, mask as nat);
    }
    while rest != 0
        invariant
            weight >= 1,
            weight * rest <= mask,
            result + weight * pdep_spec(source as nat, rest as nat) == pdep_spec(
                x as nat,
                mask as nat,
            ),
            pdep_spec(x as nat, mask as nat) <= mask,
        decreases rest,
    {
        let ghost deposit_here = pdep_spec(source as nat, rest as nat);
        let ghost deposit_above = if rest % 2 == 1 {
            pdep_spec((source / 2) as nat, (rest / 2) as nat)
        } else {
            pdep_spec(source as nat, (rest / 2) as nat)
        };
        if rest % 2 == 1 {
            if source % 2 == 1 {
                assert(weight * deposit_here == weight + (2 * weight) * deposit_above)
                    by (nonlinear_arith)
                    requires
                        deposit_here == 1 + 2 * deposit_above,
                ;
                result = result + weight;
            } else {
                assert(weight * deposit_here == (2 * weight) * deposit_above)
                    by (nonlinear_arith)
                    requires
                        deposit_here == 2 * deposit_above,
                ;
            }
            source = source / 2;
        } else {
            assert(weight * deposit_here == (2 * weight) * deposit_above) by (nonlinear_arith)
                requires
                    deposit_here == 2 * deposit_above,
            ;
        }
        let ghost old_rest = rest;
        rest = rest / 2;
        if rest != 0 {
            assert(2 * weight <= weight * old_rest) by (nonlinear_arith)
                requires
                    old_rest >= 2,
                    weight >= 1,
            ;
            assert((2 * weight) * rest <= weight * old_rest) by (nonlinear_arith)
                requires
                    2 * rest <= old_rest,
                    weight >= 1,
            ;
            weight = 2 * weight;
        } else {
            assert(deposit_above == 0);
            assert((2 * weight) * deposit_above == 0) by (nonlinear_arith)
                requires
                    deposit_above == 0,
            ;
        }
    }
    result
}

} // verus!
