//! Bit length of a field modulus given as little-endian bytes.

use vstd::arithmetic::power2::{
    lemma2_to64, lemma_pow2_adds, lemma_pow2_pos, lemma_pow2_unfold, pow2,
};
use vstd::prelude::*;
use vstd::std_specs::bits::{axiom_u8_leading_zeros, u8_leading_zeros};

verus! {

/// The natural number that `bytes` encodes in little-endian order: the sum
/// of `bytes[i] * 256^i` over all positions.
pub open spec fn le_value(bytes: Seq<u8>) -> nat
    decreases bytes.len(),
{
    if bytes.len() == 0 {
        0
    } else {
        le_value(bytes.drop_last()) + bytes.last() as nat * pow2((8 * (bytes.len() - 1)) as nat)
    }
}

/// The number of bits needed to write `n` in binary: zero for zero, otherwise
/// the index of the highest set bit plus one.
pub open spec fn bit_length(n: nat) -> nat
    decreases n,
{
    if n == 0 {
        0
    } else {
        1 + bit_length(n / 2)
    }
}

/// A number between `2^(k-1)` and `2^k - 1` has bit length exactly `k`.
pub proof fn lemma_bit_length_of_range(n: nat, k: nat)
    requires
        k > 0,
        pow2((k - 1) as nat) <= n < pow2(k),
    ensures
        bit_length(n) == k,
    decreases k,
{
    lemma_pow2_pos((k - 1) as nat);
    lemma_pow2_unfold(k);
    if k == 1 {
        lemma2_to64();
        assert(n == 1);
        assert(bit_length(1) == 1 + bit_length(0));
    } else {
        lemma_pow2_unfold((k - 1) as nat);
        lemma_bit_length_of_range(n / 2, (k - 1) as nat);
    }
}

/// A number below `2^k` has bit length at most `k`.
pub proof fn lemma_bit_length_below_pow2(n: nat, k: nat)
    requires
        n < pow2(k),
    ensures
        bit_length(n) <= k,
    decreases k,
{
    if k == 0 {
        lemma2_to64();
    } else if n > 0 {
        lemma_pow2_unfold(k);
        lemma_bit_length_below_pow2(n / 2, (k - 1) as nat);
    }
}

/// Shifting a positive number `high` left by `shift` bits and filling the
/// vacated bits with `low` adds `shift` to its bit length.
pub proof fn lemma_bit_length_shifted(high: nat, low: nat, shift: nat)
    requires
        high > 0,
        low < pow2(shift),
    ensures
        bit_length(high * pow2(shift) + low) == shift + bit_length(high),
    decreases shift,
{
    if shift == 0 {
        lemma2_to64();
        assert(high * pow2(0) == high) by (nonlinear_arith)
            requires
                pow2(0) == 1,
        ;
    } else {
        let rest = (shift - 1) as nat;
        lemma_pow2_unfold(shift);
        lemma_pow2_pos(rest);
        let whole = high * pow2(shift) + low;
        assert(high * pow2(shift) == 2 * (high * pow2(rest))) by (nonlinear_arith)
            requires
                pow2(shift) == 2 * pow2(rest),
        ;
        assert(high * pow2(rest) > 0) by (nonlinear_arith)
            requires
                high > 0,
                pow2(rest) > 0,
        ;
        assert(whole / 2 == high * pow2(rest) + low / 2);
        lemma_bit_length_shifted(high, low / 2, rest);
    }
}

/// The little-endian value of `len` bytes is below `256^len`.
pub proof fn lemma_le_value_bound(bytes: Seq<u8>)
    ensures
        le_value(bytes) < pow2((8 * bytes.len()) as nat),
    decreases bytes.len(),
{
    if bytes.len() == 0 {
        lemma2_to64();
    } else {
        let below = (8 * (bytes.len() - 1)) as nat;
        lemma_le_value_bound(bytes.drop_last());
        lemma_pow2_adds(below, 8);
        lemma2_to64();
        assert(bytes.last() as nat * pow2(below) <= 255 * pow2(below)) by (nonlinear_arith)
            requires
                bytes.last() as nat <= 255,
        ;
    }
}

/// The bit length of an encoded value is at most eight bits per byte. An
/// encoding of up to `u32::MAX / 8` bytes therefore has a bit length that
/// fits in 32 bits.
pub proof fn lemma_bit_length_of_bytes(bytes: Seq<u8>)
    ensures
        bit_length(le_value(bytes)) <= 8 * bytes.len(),
{
    lemma_le_value_bound(bytes);
    lemma_bit_length_below_pow2(le_value(bytes), (8 * bytes.len()) as nat);
}

/// Bytes that are all zero encode zero.
pub proof fn lemma_le_value_of_zeros(bytes: Seq<u8>)
    requires
        forall|i: int| 0 <= i < bytes.len() ==> bytes[i] == 0,
    ensures
        le_value(bytes) == 0,
    decreases bytes.len(),
{
    if bytes.len() > 0 {
        lemma_le_value_of_zeros(bytes.drop_last());
        assert(bytes.last() == 0);
        assert(0 * pow2((8 * (bytes.len() - 1)) as nat) == 0);
    }
}

/// Zero bytes at the high end do not change the encoded value.
pub proof fn lemma_le_value_ignores_high_zeros(bytes: Seq<u8>, keep: int)
    requires
        0 <= keep <= bytes.len(),
        forall|i: int| keep <= i < bytes.len() ==> bytes[i] == 0,
    ensures
        le_value(bytes) == le_value(bytes.take(keep)),
    decreases bytes.len() - keep,
{
    if keep == bytes.len() {
        assert(bytes.take(keep) =~= bytes);
    } else {
        let shorter = bytes.drop_last();
        assert(bytes.last() == 0);
        assert(0 * pow2((8 * (bytes.len() - 1)) as nat) == 0);
        lemma_le_value_ignores_high_zeros(shorter, keep);
        assert(shorter.take(keep) =~= bytes.take(keep));
    }
}

/// For a single byte, the bit length is eight minus the count of leading
/// zero bits.
pub proof fn lemma_byte_bit_length(byte: u8)
    ensures
        bit_length(byte as nat) == 8 - u8_leading_zeros(byte),
{
    axiom_u8_leading_zeros(byte);
    let zeros = u8_leading_zeros(byte);
    if byte != 0 {
        let z: u8 = zeros as u8;
        assert((byte >> ((7 - z) as u8)) & 1u8 != 0u8);
        assert(byte >> ((8 - z) as u8) == 0);
        assert({
            &&& z == 0 ==> 128 <= byte
            &&& z == 1 ==> 64 <= byte < 128
            &&& z == 2 ==> 32 <= byte < 64
            &&& z == 3 ==> 16 <= byte < 32
            &&& z == 4 ==> 8 <= byte < 16
            &&& z == 5 ==> 4 <= byte < 8
            &&& z == 6 ==> 2 <= byte < 4
            &&& z == 7 ==> byte == 1
        }) by (bit_vector)
            requires
                z < 8,
                (byte >> ((7 - z) as u8)) & 1u8 != 0u8,
                byte >> ((8 - z) as u8) == 0,
        ;
        lemma2_to64();
        lemma_bit_length_of_range(byte as nat, (8 - z) as nat);
    }
}

/// Where the highest non-zero byte of `bytes` sits at position `top`, the
/// bit length of the encoded value is `8 * top` plus the bit length of that
/// byte.
pub proof fn lemma_bit_length_from_top_byte(bytes: Seq<u8>, top: int)
    requires
        0 <= top < bytes.len(),
        bytes[top] != 0,
        forall|j: int| top < j < bytes.len() ==> bytes[j] == 0,
    ensures
        bit_length(le_value(bytes)) == 8 * top + 8 - u8_leading_zeros(bytes[top]),
        u8_leading_zeros(bytes[top]) < 8,
{
    let kept = bytes.take(top + 1);
    let low = le_value(kept.drop_last());
    let shift = (8 * top) as nat;
    lemma_le_value_ignores_high_zeros(bytes, top + 1);
    lemma_le_value_bound(kept.drop_last());
    lemma_bit_length_shifted(bytes[top] as nat, low, shift);
    lemma_byte_bit_length(bytes[top]);
    axiom_u8_leading_zeros(bytes[top]);
    assert(kept.last() == bytes[top]);
    assert(le_value(kept) == low + bytes[top] as nat * pow2(shift));
}

/// Number of bytes that remain once the zero bytes at the high end are
/// dropped.
fn significant_len(bytes: &[u8]) -> (n: usize)
    ensures
        n <= bytes@.len(),
        n > 0 ==> bytes@[n - 1] != 0,
        forall|j: int| n <= j < bytes@.len() ==> bytes@[j] == 0,
{
    let mut n: usize = bytes.len();
    while n > 0 && bytes[n - 1] == 0
        invariant
            n <= bytes@.len(),
            forall|j: int| n <= j < bytes@.len() ==> bytes@[j] == 0,
        decreases n,
    {
        n -= 1;
    }
    n
}

/// Returns the number of bits in the modulus encoded by `modulus_bytes` in
/// little-endian byte order.
///
/// High-order zero bytes are skipped; the first non-zero byte from the top
/// contributes eight minus its leading zero bits. An all-zero (or empty)
/// encoding has bit length zero.
///
/// The result must fit in 32 bits, which `lemma_bit_length_of_bytes` shows of
/// every encoding of up to `u32::MAX / 8` bytes; `checked_num_modulus_bits`
/// accepts any encoding.
pub fn get_num_modulus_bits(modulus_bytes: &[u8]) -> (num_bits: u32)
    requires
        bit_length(le_value(modulus_bytes@)) <= u32::MAX,
    ensures
        num_bits == bit_length(le_value(modulus_bytes@)),
        (forall|i: int| 0 <= i < modulus_bytes@.len() ==> modulus_bytes@[i] == 0) <==> num_bits == 0,
{
    let n = significant_len(modulus_bytes);
    if n == 0 {
        proof {
            lemma_le_value_of_zeros(modulus_bytes@);
        }
        return 0;
    }
    let byte = modulus_bytes[n - 1];
    proof {
        lemma_bit_length_from_top_byte(modulus_bytes@, n - 1);
    }
    let skipped: u32 = (n - 1) as u32;
    skipped * 8 + (8 - byte.leading_zeros())
}

/// Returns the bit length of the modulus encoded by `modulus_bytes`, or
/// `None` where it does not fit in 32 bits.
pub fn checked_num_modulus_bits(modulus_bytes: &[u8]) -> (num_bits: Option<u32>)
    ensures
        match num_bits {
            Some(bits) => bits == bit_length(le_value(modulus_bytes@)),
            None => bit_length(le_value(modulus_bytes@)) > u32::MAX,
        },
{
    let n = significant_len(modulus_bytes);
    if n == 0 {
        proof {
            lemma_le_value_of_zeros(modulus_bytes@);
        }
        return Some(0);
    }
    let byte = modulus_bytes[n - 1];
    proof {
        lemma_bit_length_from_top_byte(modulus_bytes@, n - 1);
    }
    let total: u128 = (n - 1) as u128 * 8 + (8 - byte.leading_zeros()) as u128;
    if total > u32::MAX as u128 {
        None
    } else {
        Some(total as u32)
    }
}

} // verus!
