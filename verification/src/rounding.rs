//! Floor and ceiling division of natural numbers, what characterises them,
//! and their executable forms on 128-bit intermediates.

use vstd::prelude::*;
use vstd::arithmetic::div_mod::{lemma_fundamental_div_mod, lemma_mod_bound};

verus! {

/// `a / b` rounded down.
pub open spec fn floor_div(a: nat, b: nat) -> nat {
    a / b
}

/// `a / b` rounded up.
pub open spec fn ceil_div(a: nat, b: nat) -> nat {
    if a % b == 0 {
        a / b
    } else {
        a / b + 1
    }
}

/// Quotient and remainder rebuild the dividend, and the remainder is less
/// than the divisor.
pub proof fn lemma_div_rem(a: nat, b: nat)
    requires
        b > 0,
    ensures
        a == b * (a / b) + a % b,
        a % b < b,
{
    lemma_fundamental_div_mod(a as int, b as int);
    lemma_mod_bound(a as int, b as int);
}

/// `floor_div(a, b)` is the greatest `q` with `q * b <= a`.
pub proof fn lemma_floor_div_greatest(a: nat, b: nat, q: nat)
    requires
        b > 0,
    ensures
        q <= floor_div(a, b) <==> q * b <= a,
{
    lemma_div_rem(a, b);
    let k = a / b;
    let r = a % b;
    if q <= k {
        assert(q * b <= a) by (nonlinear_arith)
            requires
                q <= k,
                a == b * k + r,
        ;
    } else {
        assert(q * b > a) by (nonlinear_arith)
            requires
                q >= k + 1,
                a == b * k + r,
                r < b,
        ;
    }
}

/// `ceil_div(a, b)` is the least `q` with `q * b >= a`.
pub proof fn lemma_ceil_div_least(a: nat, b: nat, q: nat)
    requires
        b > 0,
    ensures
        q >= ceil_div(a, b) <==> q * b >= a,
{
    lemma_div_rem(a, b);
    let k = a / b;
    let r = a % b;
    if q >= ceil_div(a, b) {
        assert(q * b >= a) by (nonlinear_arith)
            requires
                a == b * k + r,
                r < b,
                r == 0 ==> q >= k,
                r != 0 ==> q >= k + 1,
        ;
    } else {
        assert(q * b < a) by (nonlinear_arith)
            requires
                b > 0,
                a == b * k + r,
                r == 0 ==> q + 1 <= k,
                r != 0 ==> q <= k,
                r != 0 ==> r > 0,
        ;
    }
}

/// `floor_div(a, b)` is the one `q` with `q * b <= a < (q + 1) * b`.
pub proof fn lemma_floor_div_is(a: nat, b: nat, q: nat)
    requires
        b > 0,
    ensures
        floor_div(a, b) == q <==> q * b <= a < (q + 1) * b,
{
    lemma_floor_div_greatest(a, b, q);
    lemma_floor_div_greatest(a, b, q + 1);
}

/// `ceil_div(a, b)` is the one `q` with `(q - 1) * b < a <= q * b`.
pub proof fn lemma_ceil_div_is(a: nat, b: nat, q: nat)
    requires
        b > 0,
    ensures
        ceil_div(a, b) == q <==> (q - 1) * b < a <= q * b,
{
    lemma_ceil_div_least(a, b, q);
    if q > 0 {
        lemma_ceil_div_least(a, b, (q - 1) as nat);
    } else {
        assert((q - 1) * b < 0) by (nonlinear_arith)
            requires
                q == 0,
                b > 0,
        ;
    }
}

/// The product of two 64-bit values, which always fits in 128 bits.
pub fn mul_wide(a: u64, b: u64) -> (product: u128)
    ensures
        product == a * b,
{
    assert(a * b <= u64::MAX * u64::MAX) by (nonlinear_arith)
        requires
            a <= u64::MAX,
            b <= u64::MAX,
    ;
    (a as u128) * (b as u128)
}

/// `a / b` rounded up: the quotient, raised by one where the division leaves
/// a remainder.
pub fn div_ceil(a: u128, b: u64) -> (q: u128)
    requires
        b > 0,
    ensures
        q == ceil_div(a as nat, b as nat),
{
    let q = a / (b as u128);
    if a % (b as u128) == 0 {
        q
    } else {
        proof {
            lemma_div_rem(a as nat, b as nat);
            assert(q < a) by (nonlinear_arith)
                requires
                    a == b * q + (a as nat % b as nat),
                    (a as nat % b as nat) > 0,
                    b > 0,
            ;
        }
        q + 1
    }
}

} // verus!
