//! Big-endian readers over raw byte buffers.
//!
//! The payload of a log record is a byte string; every number in it is
//! big-endian.  `be_value` is the mathematical meaning of such a byte
//! string, and the readers here return exactly that value for the range
//! they cover.

use vstd::prelude::*;
use crate::u256::U256;

verus! {

/// The natural number a big-endian byte string denotes.
pub open spec fn be_value(s: Seq<u8>) -> nat
    decreases s.len(),
{
    if s.len() == 0 {
        0
    } else {
        (be_value(s.drop_last()) * 256 + s.last()) as nat
    }
}

/// 256^n, the weight of a byte string of length n.
pub open spec fn byte_weight(n: nat) -> nat
    decreases n,
{
    if n == 0 {
        1
    } else {
        byte_weight((n - 1) as nat) * 256
    }
}

/// Concatenation splits a big-endian value into high and low parts.
pub proof fn lemma_be_value_concat(a: Seq<u8>, b: Seq<u8>)
    ensures
        be_value(a + b) == be_value(a) * byte_weight(b.len()) + be_value(b),
    decreases b.len(),
{
    if b.len() == 0 {
        assert(a + b =~= a);
        assert(byte_weight(0) == 1);
        assert(be_value(b) == 0);
        assert(be_value(a) * 1 == be_value(a)) by (nonlinear_arith);
        assert(be_value(a + b) == be_value(a) * byte_weight(b.len()) + be_value(b));
    } else {
        lemma_be_value_concat(a, b.drop_last());
        assert((a + b).drop_last() =~= a + b.drop_last());
        assert((a + b).last() == b.last());
        assert(be_value(a + b) == (be_value(a) * byte_weight((b.len() - 1) as nat) + be_value(
            b.drop_last(),
        )) * 256 + b.last());
        assert((be_value(a) * byte_weight((b.len() - 1) as nat) + be_value(b.drop_last())) * 256
            + b.last() == be_value(a) * (byte_weight((b.len() - 1) as nat) * 256) + (be_value(
            b.drop_last(),
        ) * 256 + b.last())) by (nonlinear_arith);
        assert(byte_weight(b.len()) == byte_weight((b.len() - 1) as nat) * 256);
        assert(be_value(b) == be_value(b.drop_last()) * 256 + b.last());
        assert(be_value(a + b) == be_value(a) * byte_weight(b.len()) + be_value(b))
            by (nonlinear_arith)
            requires
                be_value(a + b) == (be_value(a) * byte_weight((b.len() - 1) as nat) + be_value(
                    b.drop_last(),
                )) * 256 + b.last(),
                byte_weight(b.len()) == byte_weight((b.len() - 1) as nat) * 256,
                be_value(b) == be_value(b.drop_last()) * 256 + b.last(),
        ;
    }
}

/// A big-endian value is below the weight of its length.
pub proof fn lemma_be_value_bound(s: Seq<u8>)
    ensures
        be_value(s) < byte_weight(s.len()),
    decreases s.len(),
{
    if s.len() == 0 {
    } else {
        lemma_be_value_bound(s.drop_last());
        assert(be_value(s.drop_last()) * 256 <= (byte_weight((s.len() - 1) as nat) - 1) * 256)
            by (nonlinear_arith)
            requires
                be_value(s.drop_last()) <= byte_weight((s.len() - 1) as nat) - 1,
        ;
    }
}

/// Read 8 bytes at `start` as a big-endian 64-bit value.
pub fn read_be_u64(data: &Vec<u8>, start: usize) -> (r: u64)
    requires
        start + 8 <= data@.len(),
    ensures
        r == be_value(data@.subrange(start as int, start + 8)),
{
    let n: usize = data.len();
    proof {
        lemma_byte_weight_increases(0, 8);
    }
    let mut acc: u64 = 0;
    let mut i: usize = 0;
    while i < 8
        invariant
            i <= 8,
            n == data@.len(),
            start + 8 <= data@.len(),
            acc == be_value(data@.subrange(start as int, start + i)),
            acc < byte_weight(i as nat),
            byte_weight(i as nat) <= byte_weight(8),
        decreases 8 - i,
    {
        proof {
            assert(byte_weight(8) == 0x1_0000_0000_0000_0000nat) by {
                reveal_with_fuel(byte_weight, 9);
            }
            let sub = data@.subrange(start as int, start + i + 1);
            assert(sub.drop_last() =~= data@.subrange(start as int, start + i));
            assert(sub.last() == data@[start + i]);
            assert(acc * 256 + data@[start + i] < byte_weight((i + 1) as nat)) by (nonlinear_arith)
                requires
                    acc < byte_weight(i as nat),
                    data@[start + i] < 256,
                    byte_weight((i + 1) as nat) == byte_weight(i as nat) * 256,
            ;
            assert(byte_weight((i + 1) as nat) <= byte_weight(8)) by {
                lemma_byte_weight_increases((i + 1) as nat, 8);
            }
        }
        acc = acc * 256 + (data[start + i] as u64);
        i = i + 1;
    }
    acc
}

/// Read 4 bytes at `start` as a big-endian 32-bit value.
pub fn read_be_u32(data: &Vec<u8>, start: usize) -> (r: u32)
    requires
        start + 4 <= data@.len(),
    ensures
        r == be_value(data@.subrange(start as int, start + 4)),
{
    let n: usize = data.len();
    proof {
        lemma_byte_weight_increases(0, 4);
    }
    let mut acc: u32 = 0;
    let mut i: usize = 0;
    while i < 4
        invariant
            i <= 4,
            n == data@.len(),
            start + 4 <= data@.len(),
            acc == be_value(data@.subrange(start as int, start + i)),
            acc < byte_weight(i as nat),
            byte_weight(i as nat) <= byte_weight(4),
        decreases 4 - i,
    {
        proof {
            assert(byte_weight(4) == 0x1_0000_0000nat) by {
                reveal_with_fuel(byte_weight, 5);
            }
            let sub = data@.subrange(start as int, start + i + 1);
            assert(sub.drop_last() =~= data@.subrange(start as int, start + i));
            assert(sub.last() == data@[start + i]);
            assert(acc * 256 + data@[start + i] < byte_weight((i + 1) as nat)) by (nonlinear_arith)
                requires
                    acc < byte_weight(i as nat),
                    data@[start + i] < 256,
                    byte_weight((i + 1) as nat) == byte_weight(i as nat) * 256,
            ;
            assert(byte_weight((i + 1) as nat) <= byte_weight(4)) by {
                lemma_byte_weight_increases((i + 1) as nat, 4);
            }
        }
        acc = acc * 256 + (data[start + i] as u32);
        i = i + 1;
    }
    acc
}

/// Read 3 bytes at `start` as a big-endian 24-bit value.
pub fn read_be_u24(data: &Vec<u8>, start: usize) -> (r: u32)
    requires
        start + 3 <= data@.len(),
    ensures
        r == be_value(data@.subrange(start as int, start + 3)),
        r < 0x100_0000,
{
    let n: usize = data.len();
    let b0 = data[start];
    let b1 = data[start + 1];
    let b2 = data[start + 2];
    proof {
        let sub = data@.subrange(start as int, start + 3);
        let sub2 = data@.subrange(start as int, start + 2);
        let sub1 = data@.subrange(start as int, start + 1);
        let sub0 = data@.subrange(start as int, start as int);
        assert(sub.drop_last() =~= sub2);
        assert(sub2.drop_last() =~= sub1);
        assert(sub1.drop_last() =~= sub0);
        assert(sub0 =~= Seq::<u8>::empty());
        reveal_with_fuel(be_value, 5);
        assert(sub.last() == b2 && sub2.last() == b1 && sub1.last() == b0);
        assert(be_value(sub1) == be_value(sub0) * 256 + b0);
        assert(be_value(sub2) == be_value(sub1) * 256 + b1);
        assert(be_value(sub) == be_value(sub2) * 256 + b2);
    }
    ((b0 as u32) * 0x1_0000) + ((b1 as u32) * 0x100) + (b2 as u32)
}

/// Read 16 bytes at `start` as a big-endian 128-bit value.
pub fn read_be_u128(data: &Vec<u8>, start: usize) -> (r: u128)
    requires
        start + 16 <= data@.len(),
    ensures
        r == be_value(data@.subrange(start as int, start + 16)),
{
    let n: usize = data.len();
    let hi = read_be_u64(data, start);
    let lo = read_be_u64(data, start + 8);
    proof {
        let a = data@.subrange(start as int, start + 8);
        let b = data@.subrange(start + 8, start + 16);
        assert(data@.subrange(start as int, start + 16) =~= a + b);
        lemma_be_value_concat(a, b);
        assert(byte_weight(8) == 0x1_0000_0000_0000_0000nat) by {
            reveal_with_fuel(byte_weight, 9);
        }
        lemma_be_value_bound(b);
        assert((hi as u128) * 0x1_0000_0000_0000_0000u128 + (lo as u128) < (
        0xFFFF_FFFF_FFFF_FFFFu128 + 1) * 0x1_0000_0000_0000_0000u128) by (nonlinear_arith)
            requires
                hi <= 0xFFFF_FFFF_FFFF_FFFFu64,
                lo < 0x1_0000_0000_0000_0000u128,
        ;
    }
    (hi as u128) * 0x1_0000_0000_0000_0000u128 + (lo as u128)
}

/// Byte weights grow with length.
pub proof fn lemma_byte_weight_increases(m: nat, n: nat)
    requires
        m <= n,
    ensures
        byte_weight(m) <= byte_weight(n),
    decreases n,
{
    if m < n {
        lemma_byte_weight_increases(m, (n - 1) as nat);
        assert(byte_weight((n - 1) as nat) * 256 >= byte_weight((n - 1) as nat) * 1)
            by (nonlinear_arith);
    }
}

/// Read a full 32-byte word at `start` as an unsigned 256-bit value.
pub fn read_be_u256(data: &Vec<u8>, start: usize) -> (r: U256)
    requires
        start + 32 <= data@.len(),
    ensures
        r@ == be_value(data@.subrange(start as int, start + 32)),
{
    let n: usize = data.len();
    let w3 = read_be_u64(data, start);
    let w2 = read_be_u64(data, start + 8);
    let w1 = read_be_u64(data, start + 16);
    let w0 = read_be_u64(data, start + 24);
    let r = U256 { limb0: w0, limb1: w1, limb2: w2, limb3: w3 };
    proof {
        lemma_quarter_split(data@, start as int);
        assert(r@ == be_value(data@.subrange(start as int, start + 32))) by (nonlinear_arith)
            requires
                be_value(data@.subrange(start as int, start + 32)) == ((be_value(
                    data@.subrange(start as int, start + 8),
                ) * 0x1_0000_0000_0000_0000nat + be_value(
                    data@.subrange(start + 8, start + 16),
                )) * 0x1_0000_0000_0000_0000nat + be_value(data@.subrange(start + 16, start + 24)))
                    * 0x1_0000_0000_0000_0000nat + be_value(data@.subrange(start + 24, start + 32)),
                w3 == be_value(data@.subrange(start as int, start + 8)),
                w2 == be_value(data@.subrange(start + 8, start + 16)),
                w1 == be_value(data@.subrange(start + 16, start + 24)),
                w0 == be_value(data@.subrange(start + 24, start + 32)),
                r@ == w0 + w1 * 0x1_0000_0000_0000_0000nat + w2
                    * 0x1_0000_0000_0000_0000_0000_0000_0000_0000nat + w3
                    * 0x1_0000_0000_0000_0000_0000_0000_0000_0000_0000_0000_0000_0000nat,
        ;
    }
    r
}

/// A 32-byte stretch splits into four big-endian limbs.
proof fn lemma_quarter_split(s: Seq<u8>, start: int)
    requires
        0 <= start,
        start + 32 <= s.len(),
    ensures
        be_value(s.subrange(start, start + 32)) == ((be_value(s.subrange(start, start + 8))
            * 0x1_0000_0000_0000_0000nat + be_value(s.subrange(start + 8, start + 16)))
            * 0x1_0000_0000_0000_0000nat + be_value(s.subrange(start + 16, start + 24)))
            * 0x1_0000_0000_0000_0000nat + be_value(s.subrange(start + 24, start + 32)),
{
    assert(byte_weight(8) == 0x1_0000_0000_0000_0000nat) by {
        reveal_with_fuel(byte_weight, 9);
    }
    let s0 = s.subrange(start, start + 8);
    let s1 = s.subrange(start + 8, start + 16);
    let s2 = s.subrange(start + 16, start + 24);
    let s3 = s.subrange(start + 24, start + 32);
    assert(s.subrange(start, start + 16) =~= s0 + s1);
    assert(s.subrange(start, start + 24) =~= s.subrange(start, start + 16) + s2);
    assert(s.subrange(start, start + 32) =~= s.subrange(start, start + 24) + s3);
    lemma_be_value_concat(s0, s1);
    lemma_be_value_concat(s.subrange(start, start + 16), s2);
    lemma_be_value_concat(s.subrange(start, start + 24), s3);
}

/// Read the low 20 bytes of the 32-byte word at `start` — the range an
/// ABI-encoded 160-bit quantity occupies — as an unsigned value.
pub fn read_be_u160(data: &Vec<u8>, start: usize) -> (r: U256)
    requires
        start + 32 <= data@.len(),
    ensures
        r@ == be_value(data@.subrange(start + 12, start + 32)),
{
    let n: usize = data.len();
    let w2 = read_be_u32(data, start + 12);
    let w1 = read_be_u64(data, start + 16);
    let w0 = read_be_u64(data, start + 24);
    let r = U256 { limb0: w0, limb1: w1, limb2: w2 as u64, limb3: 0 };
    proof {
        assert(byte_weight(8) == 0x1_0000_0000_0000_0000nat) by {
            reveal_with_fuel(byte_weight, 9);
        }
        let s2 = data@.subrange(start + 12, start + 16);
        let s1 = data@.subrange(start + 16, start + 24);
        let s0 = data@.subrange(start + 24, start + 32);
        assert(data@.subrange(start + 12, start + 24) =~= s2 + s1);
        assert(data@.subrange(start + 12, start + 32) =~= data@.subrange(start + 12, start + 24)
            + s0);
        lemma_be_value_concat(s2, s1);
        lemma_be_value_concat(data@.subrange(start + 12, start + 24), s0);
        assert(r@ == be_value(data@.subrange(start + 12, start + 32))) by (nonlinear_arith)
            requires
                be_value(data@.subrange(start + 12, start + 32)) == ((w2 as nat)
                    * 0x1_0000_0000_0000_0000nat + w1) * 0x1_0000_0000_0000_0000nat + w0,
                r@ == w0 + w1 * 0x1_0000_0000_0000_0000nat + (w2 as nat)
                    * 0x1_0000_0000_0000_0000_0000_0000_0000_0000nat,
        ;
    }
    r
}

/// A big-endian value is zero exactly when every byte is zero.
pub proof fn lemma_be_value_zero(s: Seq<u8>)
    ensures
        (be_value(s) == 0) <==> (forall|i: int| 0 <= i < s.len() ==> s[i] == 0u8),
    decreases s.len(),
{
    if s.len() == 0 {
    } else {
        lemma_be_value_zero(s.drop_last());
        if be_value(s) == 0 {
            assert(forall|i: int| 0 <= i < s.len() - 1 ==> s.drop_last()[i] == s[i]);
        } else {
            if forall|i: int| 0 <= i < s.len() ==> s[i] == 0u8 {
                assert(forall|i: int|
                    0 <= i < s.len() - 1 ==> #[trigger] s.drop_last()[i] == 0u8) by {
                    assert(forall|i: int| 0 <= i < s.len() - 1 ==> s.drop_last()[i] == s[i]);
                }
                assert(s.last() == 0u8);
                assert(be_value(s) == 0);
            }
        }
    }
}

/// Read the 32-byte word at `start` as an offset or length: `Some` of
/// its value when that fits 64 bits, `None` when any higher byte is set.
pub fn read_word_as_u64(data: &Vec<u8>, start: usize) -> (r: Option<u64>)
    requires
        start + 32 <= data@.len(),
    ensures
        match r {
            Some(v) => v == be_value(data@.subrange(start as int, start + 32)),
            None => be_value(data@.subrange(start as int, start + 32))
                >= 0x1_0000_0000_0000_0000nat,
        },
{
    let n: usize = data.len();
    let mut i: usize = 0;
    let mut high_zero: bool = true;
    while i < 24
        invariant
            i <= 24,
            n == data@.len(),
            start + 32 <= data@.len(),
            high_zero <==> (forall|j: int| 0 <= j < i ==> #[trigger] data@[start + j] == 0u8),
        decreases 24 - i,
    {
        if data[start + i] != 0u8 {
            high_zero = false;
        }
        i = i + 1;
    }
    proof {
        let hi = data@.subrange(start as int, start + 24);
        let lo = data@.subrange(start + 24, start + 32);
        assert(data@.subrange(start as int, start + 32) =~= hi + lo);
        lemma_be_value_concat(hi, lo);
        lemma_be_value_zero(hi);
        lemma_be_value_bound(lo);
        assert(byte_weight(8) == 0x1_0000_0000_0000_0000nat) by {
            reveal_with_fuel(byte_weight, 9);
        }
        assert(forall|j: int| 0 <= j < 24 ==> #[trigger] hi[j] == data@[start + j]);
        if !high_zero {
            let j = choose|j: int| 0 <= j < 24 && #[trigger] data@[start + j] != 0u8;
            assert(hi[j] == data@[start + j]);
            assert(be_value(hi) > 0);
            assert(be_value(hi) * 0x1_0000_0000_0000_0000nat >= 1
                * 0x1_0000_0000_0000_0000nat) by (nonlinear_arith)
                requires
                    be_value(hi) >= 1,
            ;
        }
    }
    if high_zero {
        Some(read_be_u64(data, start + 24))
    } else {
        None
    }
}

/// Relies on `String::from_utf8` of std: it succeeds exactly on valid
/// UTF-8 and then returns the decoded text, stated here through vstd's
/// own model of UTF-8.
#[verifier::external_body]
pub fn string_from_utf8(v: Vec<u8>) -> (r: Option<String>)
    ensures
        r is Some <==> vstd::utf8::valid_utf8(v@),
        r matches Some(s) ==> s@ == vstd::utf8::decode_utf8(v@),
{
    String::from_utf8(v).ok()
}

/// Copy the byte range `[start, end)` out of a buffer.
pub fn copy_range(data: &Vec<u8>, start: usize, end: usize) -> (r: Vec<u8>)
    requires
        start <= end <= data@.len(),
    ensures
        r@ == data@.subrange(start as int, end as int),
{
    let mut r: Vec<u8> = Vec::new();
    let mut i: usize = start;
    while i < end
        invariant
            start <= i <= end <= data@.len(),
            r@ == data@.subrange(start as int, i as int),
        decreases end - i,
    {
        r.push(data[i]);
        proof {
            assert(r@ =~= data@.subrange(start as int, i + 1));
        }
        i = i + 1;
    }
    r
}

} // verus!
