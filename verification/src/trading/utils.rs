//! Slippage bounds on 256-bit amounts.
//!
//! Slippage is taken in basis points (one hundredth of a percent) —
//! the resolution a caller's percentage converts to without loss — so
//! the arithmetic is exact.  Like the 256-bit multiplication it is built
//! on, the scaling wraps at 2^256.

use vstd::prelude::*;
use crate::u256::{U256, pow_256};

verus! {

/// Utility functions for calculating amounts with slippage protection.
#[derive(Debug)]
pub struct SlippageUtils;

impl SlippageUtils {
    /// The least acceptable output under a slippage bound: the amount
    /// scaled down by `slippage_bp` basis points.  A bound of a full
    /// hundred percent or more is invalid and yields zero.
    pub fn calculate_amount_out_min(amount_out: U256, slippage_bp: u64) -> (r: U256)
        ensures
            slippage_bp >= 10000 ==> r@ == 0,
            slippage_bp < 10000 ==> r@ == ((amount_out@ * ((10000 - slippage_bp) as nat)) % pow_256())
                / 10000,
    {
        if slippage_bp >= 10000 {
            return U256::zero();
        }
        let remaining_bp: u64 = 10000 - slippage_bp;
        let (scaled, carry) = amount_out.mul_u64(remaining_bp);
        proof {
            lemma_wrap_is_mod(scaled@, carry as nat, amount_out@ * (remaining_bp as nat));
        }
        let (q, _rem) = scaled.div_u64(10000);
        q
    }

    /// The greatest acceptable input under a slippage bound: the amount
    /// scaled up by `slippage_bp` basis points.  A bound of a full
    /// hundred percent or more is invalid and yields the largest
    /// representable amount.
    pub fn calculate_amount_in_max(amount_in: U256, slippage_bp: u64) -> (r: U256)
        ensures
            slippage_bp >= 10000 ==> r@ == pow_256() - 1,
            slippage_bp < 10000 ==> r@ == ((amount_in@ * ((10000 + slippage_bp) as nat)) % pow_256())
                / 10000,
    {
        if slippage_bp >= 10000 {
            let max = U256::from_limbs(
                0xFFFF_FFFF_FFFF_FFFFu64,
                0xFFFF_FFFF_FFFF_FFFFu64,
                0xFFFF_FFFF_FFFF_FFFFu64,
                0xFFFF_FFFF_FFFF_FFFFu64,
            );
            proof {
                assert(max@ == pow_256() - 1) by (nonlinear_arith)
                    requires
                        max@ == 0xFFFF_FFFF_FFFF_FFFFu64 + 0xFFFF_FFFF_FFFF_FFFFu64
                            * crate::u256::limb_base() + 0xFFFF_FFFF_FFFF_FFFFu64
                            * crate::u256::pow_128() + 0xFFFF_FFFF_FFFF_FFFFu64
                            * crate::u256::pow_192(),
                        crate::u256::pow_128() == crate::u256::limb_base()
                            * crate::u256::limb_base(),
                        crate::u256::pow_192() == crate::u256::pow_128()
                            * crate::u256::limb_base(),
                        pow_256() == crate::u256::pow_192() * crate::u256::limb_base(),
                ;
            }
            return max;
        }
        let total_bp: u64 = 10000 + slippage_bp;
        let (scaled, carry) = amount_in.mul_u64(total_bp);
        proof {
            lemma_wrap_is_mod(scaled@, carry as nat, amount_in@ * (total_bp as nat));
        }
        let (q, _rem) = scaled.div_u64(10000);
        q
    }
}

/// A split into a low part below 2^256 and a carry of 2^256-multiples
/// is exactly reduction modulo 2^256.
proof fn lemma_wrap_is_mod(low: nat, carry: nat, full: nat)
    requires
        low < pow_256(),
        low + carry * pow_256() == full,
    ensures
        low == full % pow_256(),
{
    vstd::arithmetic::div_mod::lemma_fundamental_div_mod_converse(
        full as int,
        pow_256() as int,
        carry as int,
        low as int,
    );
}

} // verus!
