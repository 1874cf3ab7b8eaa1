//! Powers of two: recognising them, dividing them, and taking their
//! base-2 logarithm.

use vstd::arithmetic::logarithm::{lemma_log_pow, log};
use vstd::arithmetic::power::pow;
use vstd::arithmetic::power2::{
    is_pow2, is_pow2_equiv, lemma2_to64, lemma2_to64_rest, lemma_pow2, lemma_pow2_adds,
    lemma_pow2_pos, lemma_pow2_strictly_increases, pow2,
};
use vstd::prelude::*;

verus! {

/// `winter_math::log2` returns the base-2 logarithm of a power of two, and
/// panics on any other argument; the contract admits powers of two only and
/// states that two to the result is the argument.
pub assume_specification[ winter_math::log2 ](n: usize) -> (exponent: u32)
    requires
        is_pow2(n as int),
    ensures
        pow2(exponent as nat) == n,
;

/// An exact quotient of a power of two is a power of two.
pub proof fn lemma_pow2_exact_quotient(n: int, d: int)
    requires
        is_pow2(n),
        d > 0,
        n % d == 0,
    ensures
        is_pow2(n / d),
    decreases n,
{
    reveal(is_pow2);
    let q = n / d;
    assert(n == q * d) by (nonlinear_arith)
        requires
            d > 0,
            n % d == 0,
            q == n / d,
    ;
    if n == 1 {
        assert(d == 1 && q == 1) by (nonlinear_arith)
            requires
                q * d == 1,
                d > 0,
        ;
    } else {
        let half = n / 2;
        assert(q > 0) by (nonlinear_arith)
            requires
                n == q * d,
                n > 0,
                d > 0,
        ;
        if q % 2 == 0 {
            let hq = q / 2;
            assert(half == hq * d && half % d == 0 && half / d == hq) by (nonlinear_arith)
                requires
                    n == q * d,
                    q == 2 * hq,
                    half == n / 2,
                    d > 0,
            ;
            lemma_pow2_exact_quotient(half, d);
        } else {
            let (a, b, r) = (q / 2, d / 2, d % 2);
            assert(q * d == 2 * (2 * a * b + a * r + b) + r) by (nonlinear_arith)
                requires
                    q == 2 * a + 1,
                    d == 2 * b + r,
            ;
            assert(d % 2 == 0);
            let hd = d / 2;
            assert(half == q * hd && half % hd == 0 && half / hd == q && hd > 0)
                by (nonlinear_arith)
                requires
                    n == q * d,
                    d == 2 * hd,
                    half == n / 2,
                    d > 0,
            ;
            lemma_pow2_exact_quotient(half, hd);
        }
    }
}

/// A power of two has an exponent.
pub proof fn lemma_exponent_of_pow2(n: int) -> (exponent: nat)
    requires
        is_pow2(n),
    ensures
        pow2(exponent) == n,
{
    is_pow2_equiv(n);
    let exponent = choose|i: nat| pow(2, i) == n;
    lemma_pow2(exponent);
    exponent
}

/// Two to any exponent is a power of two.
pub proof fn lemma_pow2_is_pow2(exponent: nat)
    ensures
        is_pow2(pow2(exponent) as int),
{
    lemma_pow2(exponent);
    is_pow2_equiv(pow2(exponent) as int);
}

/// Of two powers of two, the smaller divides the larger, and the quotient is
/// a power of two again.
pub proof fn lemma_pow2_divides(small: int, large: int)
    requires
        is_pow2(small),
        is_pow2(large),
        small <= large,
    ensures
        large % small == 0,
        is_pow2(large / small),
{
    let a = lemma_exponent_of_pow2(small);
    let b = lemma_exponent_of_pow2(large);
    if a > b {
        lemma_pow2_strictly_increases(b, a);
    }
    let rest = (b - a) as nat;
    lemma_pow2_adds(a, rest);
    lemma_pow2_pos(a);
    assert(large % small == 0 && large / small == pow2(rest)) by (nonlinear_arith)
        requires
            large == small * pow2(rest),
            small > 0,
    ;
    lemma_pow2_is_pow2(rest);
}

/// The rounded-down logarithm of a power of two is its exponent.
pub proof fn lemma_log2_of_pow2(exponent: nat)
    ensures
        log(2, pow2(exponent) as int) == exponent,
{
    lemma_pow2(exponent);
    lemma_log_pow(2, exponent);
}

/// Decides whether `n` is a power of two.
pub fn is_power_of_two(n: u64) -> (r: bool)
    ensures
        r == is_pow2(n as int),
{
    let mut rest: u64 = n;
    if rest == 0 {
        proof {
            reveal(is_pow2);
        }
        return false;
    }
    while rest % 2 == 0
        invariant
            rest > 0,
            is_pow2(rest as int) == is_pow2(n as int),
        decreases rest,
    {
        proof {
            reveal(is_pow2);
        }
        rest = rest / 2;
    }
    proof {
        reveal(is_pow2);
    }
    rest == 1
}

/// Returns the base-2 logarithm of `n`, a power of two.
///
/// The logarithm is taken on machine words; on a target whose word is
/// narrower than `n`, it is taken on the upper half of `n`.
pub(crate) fn exact_log2(n: u64) -> (exponent: u32)
    requires
        is_pow2(n as int),
    ensures
        pow2(exponent as nat) == n,
        exponent == log(2, n as int),
        exponent <= 63,
{
    let exponent: u32 = if n <= usize::MAX as u64 {
        winter_math::log2(n as usize)
    } else {
        proof {
            lemma2_to64();
            lemma_pow2_is_pow2(32);
            lemma_pow2_divides(0x1_0000_0000, n as int);
        }
        let upper: u64 = n / 0x1_0000_0000;
        let upper_exponent: u32 = winter_math::log2(upper as usize);
        proof {
            lemma2_to64();
            if upper_exponent >= 32 {
                if upper_exponent > 32 {
                    lemma_pow2_strictly_increases(32, upper_exponent as nat);
                }
            }
            lemma_pow2_adds(32, upper_exponent as nat);
        }
        32 + upper_exponent
    };
    proof {
        lemma_log2_of_pow2(exponent as nat);
        lemma2_to64_rest();
        if exponent > 63 {
            if exponent > 64 {
                lemma_pow2_strictly_increases(64, exponent as nat);
            }
        }
    }
    exponent
}

} // verus!
