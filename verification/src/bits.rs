//! Bit-level helpers shared by the board and the move generator: single-bit
//! tests, byte reversal (the board mirror), and population count.

use vstd::prelude::*;

verus! {

/// True iff bit `i` of `x` is set. Meaningful for `i < 64`.
pub open spec fn bit64(x: u64, i: u64) -> bool {
    (x >> i) & 1u64 == 1u64
}

/// Reverses the eight bytes of `x`, mirroring the board's ranks while
/// keeping its files.
pub open spec fn byte_reverse(x: u64) -> u64 {
    ((x & 0xffu64) << 56u64) | ((x & 0xff00u64) << 40u64) | ((x & 0xff0000u64) << 24u64) | ((x
        & 0xff000000u64) << 8u64) | ((x >> 8u64) & 0xff000000u64) | ((x >> 24u64) & 0xff0000u64) | (
    (x >> 40u64) & 0xff00u64) | (x >> 56u64)
}

/// Number of set bits in `x`.
pub open spec fn popcount64(x: u64) -> nat
    decreases x,
{
    if x == 0 {
        0
    } else {
        ((x % 2u64) + popcount64(x / 2u64)) as nat
    }
}

/// A value below the `k`-th power of two has at most `k` set bits.
proof fn lemma_popcount64_pow(x: u64, k: nat)
    requires
        (x as nat) < vstd::arithmetic::power2::pow2(k),
    ensures
        popcount64(x) <= k,
    decreases k,
{
    if x != 0 {
        vstd::arithmetic::power2::lemma2_to64();
        if k == 0 {
        } else {
            reveal(vstd::arithmetic::power::pow);
            vstd::arithmetic::power::lemma_pow_positive(2, (k - 1) as nat);
            vstd::arithmetic::power::lemma_pow_positive(2, k);
            assert(vstd::arithmetic::power2::pow2(k) == 2 * vstd::arithmetic::power2::pow2(
                (k - 1) as nat,
            ));
            lemma_popcount64_pow(x / 2, (k - 1) as nat);
        }
    }
}

/// A 64-bit value has at most 64 set bits.
pub proof fn lemma_popcount64_le_64(x: u64)
    ensures
        popcount64(x) <= 64,
{
    vstd::arithmetic::power2::lemma2_to64();
    lemma_popcount64_pow(x, 64);
}

/// One step of counting bits from the low end.
proof fn lemma_popcount_step(x: u64, i: u64)
    requires
        i < 64,
    ensures
        popcount64(x >> i) == (if bit64(x, i) {
            1nat
        } else {
            0nat
        }) + popcount64(x >> ((i + 1) as u64)),
{
    assert(i < 64 ==> (x >> i) / 2u64 == x >> ((i + 1) as u64)) by (bit_vector);
    assert(i < 64 ==> ((x >> i) % 2u64 == 1u64) == ((x >> i) & 1u64 == 1u64)) by (bit_vector);
    if (x >> i) == 0 {
        assert(i < 64 && x >> i == 0 ==> (x >> i) % 2u64 == 0u64) by (bit_vector);
    }
}

/// Counts the set bits of `x`.
pub fn popcount(x: u64) -> (c: u32)
    ensures
        c as nat == popcount64(x),
{
    let mut c: u32 = 0;
    let mut i: u32 = 0;
    proof {
        assert(x >> 0u64 == x) by (bit_vector);
    }
    while i < 64
        invariant
            i <= 64,
            c <= i,
            c as nat + popcount64(x >> (i as u64)) == popcount64(x),
        decreases 64 - i,
    {
        proof {
            lemma_popcount_step(x, i as u64);
        }
        if test_bit(x, i) {
            c = c + 1;
        }
        i = i + 1;
    }
    proof {
        assert(x >> 64u64 == 0) by (bit_vector);
    }
    c
}

/// Byte reversal is an involution.
pub proof fn lemma_byte_reverse_involution(x: u64)
    ensures
        byte_reverse(byte_reverse(x)) == x,
{
    assert(byte_reverse(byte_reverse(x)) == x) by (bit_vector);
}

/// Byte reversal moves bit `i` to bit `i ^ 56`: the rank is mirrored, the
/// file is kept.
pub proof fn lemma_byte_reverse_bit(x: u64, i: u64)
    requires
        i < 64,
    ensures
        bit64(byte_reverse(x), i) == bit64(x, i ^ 56),
{
    assert(i < 64 ==> (((byte_reverse(x)) >> i) & 1u64 == 1u64) == ((x >> (i ^ 56u64)) & 1u64
        == 1u64)) by (bit_vector);
}

/// Flipping one bit with xor changes that bit and no other.
pub proof fn lemma_xor_single_bit(x: u64, s: u64, t: u64)
    requires
        s < 64,
        t < 64,
    ensures
        s == t ==> bit64(x ^ (1u64 << s), t) == !bit64(x, t),
        s != t ==> bit64(x ^ (1u64 << s), t) == bit64(x, t),
{
    assert(s < 64 && t < 64 && s == t ==> (((x ^ (1u64 << s)) >> t) & 1u64 == 1u64) == !((x >> t)
        & 1u64 == 1u64)) by (bit_vector);
    assert(s < 64 && t < 64 && s != t ==> (((x ^ (1u64 << s)) >> t) & 1u64 == 1u64) == ((x >> t)
        & 1u64 == 1u64)) by (bit_vector);
}

/// Bits of a union are the union of the bits.
pub proof fn lemma_or_bit(x: u64, y: u64, t: u64)
    requires
        t < 64,
    ensures
        bit64(x | y, t) == (bit64(x, t) || bit64(y, t)),
{
    assert(t < 64 ==> (((x | y) >> t) & 1u64 == 1u64) == (((x >> t) & 1u64 == 1u64) || ((y >> t)
        & 1u64 == 1u64))) by (bit_vector);
}

/// Bits of an intersection are the intersection of the bits.
pub proof fn lemma_and_bit(x: u64, y: u64, t: u64)
    requires
        t < 64,
    ensures
        bit64(x & y, t) == (bit64(x, t) && bit64(y, t)),
{
    assert(t < 64 ==> (((x & y) >> t) & 1u64 == 1u64) == (((x >> t) & 1u64 == 1u64) && ((y >> t)
        & 1u64 == 1u64))) by (bit_vector);
}

/// Union of masks is associative and commutative, with the empty mask as
/// its unit.
pub proof fn lemma_or_basics(a: u64, b: u64, c: u64)
    by (bit_vector)
    ensures
        ((a | b) | c) == (a | (b | c)),
        (a | b) == (b | a),
        (a | 0u64) == a,
        (0u64 | a) == a,
{
}

/// A left shift moves every bit up by `k`: bit `t` of `x << k` is bit
/// `t - k` of `x`, and the low `k` bits are clear.
pub proof fn lemma_shl_bit(x: u64, k: u64, t: u64)
    requires
        k < 64,
        t < 64,
    ensures
        t >= k ==> bit64(x << k, t) == bit64(x, (t - k) as u64),
        t < k ==> !bit64(x << k, t),
{
    assert(k < 64 && t < 64 && t >= k ==> (((x << k) >> t) & 1u64 == 1u64) == ((x >> (((t - k)
        as u64))) & 1u64 == 1u64)) by (bit_vector);
    assert(k < 64 && t < 64 && t < k ==> !(((x << k) >> t) & 1u64 == 1u64)) by (bit_vector);
}

/// Complementing a mask twice gives the mask back.
pub proof fn lemma_not_not(x: u64)
    by (bit_vector)
    ensures
        !(!x) == x,
{
}

/// The empty mask has no bits.
pub proof fn lemma_zero_bit(t: u64)
    by (bit_vector)
    ensures
        !bit64(0u64, t),
{
}

/// Reads one bit of `x` as an executable test.
pub fn test_bit(x: u64, i: u32) -> (b: bool)
    requires
        i < 64,
    ensures
        b == bit64(x, i as u64),
{
    (x >> (i as u64)) & 1u64 == 1u64
}

/// Masking with a single set bit agrees with reading that bit.
pub proof fn lemma_mask_bit(x: u64, s: u64)
    requires
        s < 64,
    ensures
        (x & (1u64 << s) != 0) == bit64(x, s),
{
    assert(s < 64 ==> (x & (1u64 << s) != 0) == ((x >> s) & 1u64 == 1u64)) by (bit_vector);
}

/// Bits of a complement are the complements of the bits.
pub proof fn lemma_not_bit(x: u64, t: u64)
    requires
        t < 64,
    ensures
        bit64(!x, t) == !bit64(x, t),
{
    assert(t < 64 ==> (((!x) >> t) & 1u64 == 1u64) == !((x >> t) & 1u64 == 1u64)) by (bit_vector);
}

} // verus!
