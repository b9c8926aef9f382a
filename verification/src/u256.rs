//! 256-bit unsigned and signed quantities.
//!
//! `U256` is four 64-bit limbs, least significant first; its view is the
//! natural number the limbs denote.  `I256` reads the same 256 bits in
//! two's complement; its view is the corresponding integer.

use vstd::prelude::*;
use vstd::arithmetic::div_mod::{lemma_fundamental_div_mod, lemma_fundamental_div_mod_converse};

verus! {

/// 2^64, the limb base.
pub open spec fn limb_base() -> nat {
    0x1_0000_0000_0000_0000nat
}

/// 2^128.
pub open spec fn pow_128() -> nat {
    0x1_0000_0000_0000_0000_0000_0000_0000_0000nat
}

/// 2^192.
pub open spec fn pow_192() -> nat {
    0x1_0000_0000_0000_0000_0000_0000_0000_0000_0000_0000_0000_0000nat
}

/// 2^255.
pub open spec fn pow_255() -> nat {
    0x8000_0000_0000_0000_0000_0000_0000_0000_0000_0000_0000_0000_0000_0000_0000_0000nat
}

/// 2^256, the modulus of 256-bit arithmetic.
pub open spec fn pow_256() -> nat {
    0x1_0000_0000_0000_0000_0000_0000_0000_0000_0000_0000_0000_0000_0000_0000_0000_0000nat
}

/// A 256-bit unsigned integer.
#[derive(Debug, Clone, Copy, PartialEq, Eq, Hash, Structural)]
pub struct U256 {
    /// Least significant limb.
    pub limb0: u64,
    /// Second limb.
    pub limb1: u64,
    /// Third limb.
    pub limb2: u64,
    /// Most significant limb.
    pub limb3: u64,
}

impl View for U256 {
    type V = nat;

    open spec fn view(&self) -> nat {
        (self.limb0 + self.limb1 * limb_base() + self.limb2 * pow_128() + self.limb3
            * pow_192()) as nat
    }
}

impl U256 {
    /// The zero quantity.
    pub fn zero() -> (r: U256)
        ensures
            r@ == 0,
    {
        U256 { limb0: 0, limb1: 0, limb2: 0, limb3: 0 }
    }

    /// Build from explicit limbs, least significant first.
    pub fn from_limbs(limb0: u64, limb1: u64, limb2: u64, limb3: u64) -> (r: U256)
        ensures
            r@ == limb0 + limb1 * limb_base() + limb2 * pow_128() + limb3 * pow_192(),
    {
        U256 { limb0, limb1, limb2, limb3 }
    }

    /// Every value is below 2^256.
    pub proof fn lemma_view_bound(self)
        ensures
            self@ < pow_256(),
    {
        assert(self.limb0 < limb_base());
        assert(self.limb1 * limb_base() <= (limb_base() - 1) * limb_base()) by (nonlinear_arith)
            requires self.limb1 <= limb_base() - 1;
        assert(self.limb2 * pow_128() <= (limb_base() - 1) * pow_128()) by (nonlinear_arith)
            requires self.limb2 <= limb_base() - 1;
        assert(self.limb3 * pow_192() <= (limb_base() - 1) * pow_192()) by (nonlinear_arith)
            requires self.limb3 <= limb_base() - 1;
    }

    /// Multiply by a small factor, wrapping at 2^256 as 256-bit arithmetic
    /// does; the returned carry holds the overflowing part.
    pub fn mul_u64(&self, m: u64) -> (r: (U256, u64))
        ensures
            r.0@ + r.1 * pow_256() == self@ * m,
    {
        let b: u128 = 0x1_0000_0000_0000_0000u128;
        proof {
            lemma_limb_product_fits(self.limb0, m);
            lemma_limb_product_fits(self.limb1, m);
            lemma_limb_product_fits(self.limb2, m);
            lemma_limb_product_fits(self.limb3, m);
        }
        let t0: u128 = (self.limb0 as u128) * (m as u128);
        let r0: u64 = (t0 % b) as u64;
        let c0: u64 = (t0 / b) as u64;
        let t1: u128 = (self.limb1 as u128) * (m as u128) + (c0 as u128);
        let r1: u64 = (t1 % b) as u64;
        let c1: u64 = (t1 / b) as u64;
        let t2: u128 = (self.limb2 as u128) * (m as u128) + (c1 as u128);
        let r2: u64 = (t2 % b) as u64;
        let c2: u64 = (t2 / b) as u64;
        let t3: u128 = (self.limb3 as u128) * (m as u128) + (c2 as u128);
        let r3: u64 = (t3 % b) as u64;
        let c3: u64 = (t3 / b) as u64;
        let out = U256 { limb0: r0, limb1: r1, limb2: r2, limb3: r3 };
        proof {
            lemma_fundamental_div_mod(t0 as int, b as int);
            lemma_fundamental_div_mod(t1 as int, b as int);
            lemma_fundamental_div_mod(t2 as int, b as int);
            lemma_fundamental_div_mod(t3 as int, b as int);
            assert(out@ + c3 * pow_256() == self@ * m) by (nonlinear_arith)
                requires
                    t0 == self.limb0 * m,
                    t1 == self.limb1 * m + c0,
                    t2 == self.limb2 * m + c1,
                    t3 == self.limb3 * m + c2,
                    t0 == b * (c0 as u128) + (r0 as u128),
                    t1 == b * (c1 as u128) + (r1 as u128),
                    t2 == b * (c2 as u128) + (r2 as u128),
                    t3 == b * (c3 as u128) + (r3 as u128),
                    b == limb_base(),
                    out@ == r0 + r1 * limb_base() + r2 * pow_128() + r3 * pow_192(),
                    self@ == self.limb0 + self.limb1 * limb_base() + self.limb2 * pow_128()
                        + self.limb3 * pow_192(),
                    pow_128() == limb_base() * limb_base(),
                    pow_192() == pow_128() * limb_base(),
                    pow_256() == pow_192() * limb_base();
        }
        (out, c3)
    }

    /// Divide by a small positive divisor; returns quotient and remainder.
    pub fn div_u64(&self, d: u64) -> (r: (U256, u64))
        requires
            d > 0,
        ensures
            self@ == r.0@ * d + r.1,
            r.1 < d,
            r.0@ == self@ / (d as nat),
    {
        let b: u128 = 0x1_0000_0000_0000_0000u128;
        let cur3: u128 = self.limb3 as u128;
        let q3: u64 = (cur3 / (d as u128)) as u64;
        let rem3: u64 = (cur3 % (d as u128)) as u64;
        let cur2: u128 = (rem3 as u128) * b + (self.limb2 as u128);
        proof {
            lemma_step_quotient_fits(cur2, d, rem3, self.limb2);
        }
        let q2: u64 = (cur2 / (d as u128)) as u64;
        let rem2: u64 = (cur2 % (d as u128)) as u64;
        let cur1: u128 = (rem2 as u128) * b + (self.limb1 as u128);
        proof {
            lemma_step_quotient_fits(cur1, d, rem2, self.limb1);
        }
        let q1: u64 = (cur1 / (d as u128)) as u64;
        let rem1: u64 = (cur1 % (d as u128)) as u64;
        let cur0: u128 = (rem1 as u128) * b + (self.limb0 as u128);
        proof {
            lemma_step_quotient_fits(cur0, d, rem1, self.limb0);
        }
        let q0: u64 = (cur0 / (d as u128)) as u64;
        let rem0: u64 = (cur0 % (d as u128)) as u64;
        let q = U256 { limb0: q0, limb1: q1, limb2: q2, limb3: q3 };
        proof {
            lemma_fundamental_div_mod(cur3 as int, d as int);
            lemma_fundamental_div_mod(cur2 as int, d as int);
            lemma_fundamental_div_mod(cur1 as int, d as int);
            lemma_fundamental_div_mod(cur0 as int, d as int);
            assert(self@ == q@ * d + rem0 && rem0 < d) by (nonlinear_arith)
                requires
                    d > 0,
                    cur3 == self.limb3 as u128,
                    cur3 == d * (q3 as u128) + (rem3 as u128),
                    rem3 < d,
                    cur2 == (rem3 as u128) * b + (self.limb2 as u128),
                    cur2 == d * (q2 as u128) + (rem2 as u128),
                    rem2 < d,
                    cur1 == (rem2 as u128) * b + (self.limb1 as u128),
                    cur1 == d * (q1 as u128) + (rem1 as u128),
                    rem1 < d,
                    cur0 == (rem1 as u128) * b + (self.limb0 as u128),
                    cur0 == d * (q0 as u128) + (rem0 as u128),
                    rem0 < d,
                    b == limb_base(),
                    q@ == q0 + q1 * limb_base() + q2 * pow_128() + q3 * pow_192(),
                    self@ == self.limb0 + self.limb1 * limb_base() + self.limb2 * pow_128()
                        + self.limb3 * pow_192(),
                    pow_128() == limb_base() * limb_base(),
                    pow_192() == pow_128() * limb_base();
            lemma_fundamental_div_mod_converse(self@ as int, d as int, q@ as int, rem0 as int);
        }
        (q, rem0)
    }
}

impl From<u64> for U256 {
    /// A 64-bit value, widened.
    fn from(v: u64) -> (r: U256) {
        U256 { limb0: v, limb1: 0, limb2: 0, limb3: 0 }
    }
}

impl vstd::std_specs::convert::FromSpecImpl<u64> for U256 {
    open spec fn obeys_from_spec() -> bool {
        true
    }

    open spec fn from_spec(v: u64) -> U256 {
        U256 { limb0: v, limb1: 0, limb2: 0, limb3: 0 }
    }
}

/// A 256-bit signed integer: the same 256 bits as a `U256`, read in
/// two's complement.
#[derive(Debug, Clone, Copy, PartialEq, Eq, Hash, Structural)]
pub struct I256 {
    /// The raw two's-complement bits.
    pub raw: U256,
}

impl View for I256 {
    type V = int;

    open spec fn view(&self) -> int {
        if self.raw@ < pow_255() {
            self.raw@ as int
        } else {
            self.raw@ - pow_256()
        }
    }
}

impl I256 {
    /// Read the given bits as a signed quantity.
    pub fn from_raw(raw: U256) -> (r: I256)
        ensures
            r.raw == raw,
    {
        I256 { raw }
    }

    /// The zero quantity.
    pub fn zero() -> (r: I256)
        ensures
            r@ == 0,
    {
        I256 { raw: U256::zero() }
    }

    /// True exactly when the value is negative.
    pub fn is_negative(&self) -> (r: bool)
        ensures
            r == (self@ < 0),
    {
        proof {
            self.raw.lemma_view_bound();
            assert(self.raw.limb3 >= 0x8000_0000_0000_0000u64 <==> self.raw@ >= pow_255())
                by (nonlinear_arith)
                requires
                    self.raw@ == self.raw.limb0 + self.raw.limb1 * limb_base()
                        + self.raw.limb2 * pow_128() + self.raw.limb3 * pow_192(),
                    self.raw.limb0 < limb_base(),
                    self.raw.limb1 < limb_base(),
                    self.raw.limb2 < limb_base(),
                    pow_128() == limb_base() * limb_base(),
                    pow_192() == pow_128() * limb_base(),
                    pow_255() == 0x8000_0000_0000_0000u64 * pow_192();
        }
        self.raw.limb3 >= 0x8000_0000_0000_0000u64
    }

    /// True exactly when the value is zero.
    pub fn is_zero(&self) -> (r: bool)
        ensures
            r == (self@ == 0),
    {
        proof {
            self.raw.lemma_view_bound();
        }
        self.raw.limb0 == 0 && self.raw.limb1 == 0 && self.raw.limb2 == 0 && self.raw.limb3 == 0
    }

    /// True exactly when the value is strictly positive.
    pub fn is_positive(&self) -> (r: bool)
        ensures
            r == (self@ > 0),
    {
        !self.is_negative() && !self.is_zero()
    }

    /// The absolute value, as an unsigned quantity.  Unlike 256-bit signed
    /// arithmetic itself, this cannot overflow: |-2^255| is representable.
    pub fn abs(&self) -> (r: U256)
        ensures
            r@ == if self@ >= 0 { self@ } else { -self@ },
    {
        proof {
            self.raw.lemma_view_bound();
        }
        if !self.is_negative() {
            self.raw
        } else {
            // Two's-complement negation: invert every bit, then add one.
            let a0: u64 = self.raw.limb0;
            let a1: u64 = self.raw.limb1;
            let a2: u64 = self.raw.limb2;
            let a3: u64 = self.raw.limb3;
            let n0: u64 = !a0;
            let n1: u64 = !a1;
            let n2: u64 = !a2;
            let n3: u64 = !a3;
            proof {
                assert(!a0 == 0xFFFF_FFFF_FFFF_FFFFu64 - a0 && !a1 == 0xFFFF_FFFF_FFFF_FFFFu64
                    - a1 && !a2 == 0xFFFF_FFFF_FFFF_FFFFu64 - a2 && !a3
                    == 0xFFFF_FFFF_FFFF_FFFFu64 - a3) by (bit_vector);
            }
            let (r0, overflow0) = add_with_carry(n0, 0, true);
            let (r1, overflow1) = add_with_carry(n1, 0, overflow0);
            let (r2, overflow2) = add_with_carry(n2, 0, overflow1);
            let (r3, _overflow3) = add_with_carry(n3, 0, overflow2);
            let out = U256 { limb0: r0, limb1: r1, limb2: r2, limb3: r3 };
            proof {
                let c1: nat = if overflow0 { 1 } else { 0 };
                let c2: nat = if overflow1 { 1 } else { 0 };
                let c3: nat = if overflow2 { 1 } else { 0 };
                let c4: nat = if _overflow3 { 1 } else { 0 };
                assert(out@ + c4 * pow_256() == (n0 + n1 * limb_base() + n2 * pow_128()
                    + n3 * pow_192()) + 1) by (nonlinear_arith)
                    requires
                        r0 + c1 * limb_base() == n0 + 1,
                        r1 + c2 * limb_base() == n1 + c1,
                        r2 + c3 * limb_base() == n2 + c2,
                        r3 + c4 * limb_base() == n3 + c3,
                        out@ == r0 + r1 * limb_base() + r2 * pow_128() + r3 * pow_192(),
                        pow_128() == limb_base() * limb_base(),
                        pow_192() == pow_128() * limb_base(),
                        pow_256() == pow_192() * limb_base();
                assert((n0 + n1 * limb_base() + n2 * pow_128() + n3 * pow_192()) + 1
                    == pow_256() - self.raw@) by (nonlinear_arith)
                    requires
                        n0 == 0xFFFF_FFFF_FFFF_FFFFu64 - self.raw.limb0,
                        n1 == 0xFFFF_FFFF_FFFF_FFFFu64 - self.raw.limb1,
                        n2 == 0xFFFF_FFFF_FFFF_FFFFu64 - self.raw.limb2,
                        n3 == 0xFFFF_FFFF_FFFF_FFFFu64 - self.raw.limb3,
                        self.raw@ == self.raw.limb0 + self.raw.limb1 * limb_base()
                            + self.raw.limb2 * pow_128() + self.raw.limb3 * pow_192(),
                        pow_128() == limb_base() * limb_base(),
                        pow_192() == pow_128() * limb_base(),
                        pow_256() == pow_192() * limb_base();
                // self.raw@ > 0 here, so the +1 never carries out of the top limb.
                out.lemma_view_bound();
                assert(c4 == 0) by (nonlinear_arith)
                    requires
                        out@ + c4 * pow_256() == pow_256() - self.raw@,
                        0 < self.raw@ < pow_256(),
                        out@ < pow_256(),
                        c4 == 0 || c4 == 1;
            }
            out
        }
    }
}

/// A limb times a 64-bit factor, plus a carry limb, stays within 128 bits.
proof fn lemma_limb_product_fits(a: u64, m: u64)
    ensures
        (a as u128) * (m as u128) + 0xFFFF_FFFF_FFFF_FFFFu128 < 0xFFFF_FFFF_FFFF_FFFF_FFFF_FFFF_FFFF_FFFFu128,
{
    assert((a as u128) * (m as u128) <= 0xFFFF_FFFF_FFFF_FFFFu128 * 0xFFFF_FFFF_FFFF_FFFFu128)
        by (nonlinear_arith)
        requires
            a <= 0xFFFF_FFFF_FFFF_FFFFu64,
            m <= 0xFFFF_FFFF_FFFF_FFFFu64;
}

/// In long division the step quotient always fits one limb: with a
/// remainder below the divisor, `(rem * 2^64 + limb) / d < 2^64`.
proof fn lemma_step_quotient_fits(cur: u128, d: u64, rem: u64, limb: u64)
    requires
        d > 0,
        rem < d,
        cur == (rem as u128) * 0x1_0000_0000_0000_0000u128 + (limb as u128),
    ensures
        cur / (d as u128) < 0x1_0000_0000_0000_0000u128,
{
    assert(cur < (d as u128) * 0x1_0000_0000_0000_0000u128) by (nonlinear_arith)
        requires
            rem < d,
            limb < 0x1_0000_0000_0000_0000u128,
            cur == (rem as u128) * 0x1_0000_0000_0000_0000u128 + (limb as u128);
    assert(cur / (d as u128) < 0x1_0000_0000_0000_0000u128) by (nonlinear_arith)
        requires
            d > 0,
            cur < (d as u128) * 0x1_0000_0000_0000_0000u128;
}

/// One limb of a multi-limb addition: `a + b + carry`, with the carry out.
fn add_with_carry(a: u64, b: u64, carry: bool) -> (r: (u64, bool))
    ensures
        r.0 + (if r.1 { limb_base() } else { 0 }) == a + b + (if carry { 1nat } else { 0 }),
{
    let c: u64 = if carry { 1 } else { 0 };
    let s: u128 = (a as u128) + (b as u128) + (c as u128);
    let lo: u64 = (s % 0x1_0000_0000_0000_0000u128) as u64;
    let hi: bool = s >= 0x1_0000_0000_0000_0000u128;
    proof {
        lemma_fundamental_div_mod(s as int, 0x1_0000_0000_0000_0000u128 as int);
    }
    (lo, hi)
}

} // verus!
