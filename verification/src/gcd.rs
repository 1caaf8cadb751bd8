//! The greatest common divisor, by Euclid's algorithm.

use vstd::prelude::*;
use vstd::arithmetic::div_mod::{lemma_fundamental_div_mod_converse, lemma_truncate_middle};
use crate::rounding::lemma_div_rem;

verus! {

/// The greatest common divisor of `a` and `b`; `gcd(a, 0)` is `a`, so it is
/// zero only where both are.
pub open spec fn gcd(a: nat, b: nat) -> nat
    decreases b,
{
    if b > 0 {
        gcd(b, a % b)
    } else {
        a
    }
}

/// `c` divides `a`: `a` is a multiple of `c`.
pub open spec fn divides(c: nat, a: nat) -> bool {
    c > 0 && a % c == 0
}

/// What `c` divides is `c` times the quotient.
pub proof fn lemma_divides_quotient(c: nat, a: nat)
    requires
        divides(c, a),
    ensures
        a == c * (a / c),
{
    lemma_div_rem(a, c);
}

/// `c` divides each of its multiples.
pub proof fn lemma_divides_multiple(c: nat, k: nat)
    requires
        c > 0,
    ensures
        divides(c, c * k),
        (c * k) / c == k,
{
    assert(c * k == k * c) by (nonlinear_arith);
    lemma_fundamental_div_mod_converse((c * k) as int, c as int, k as int, 0);
}

/// The greatest common divisor of two numbers that are not both zero is not
/// zero.
pub proof fn lemma_gcd_positive(a: nat, b: nat)
    requires
        a > 0 || b > 0,
    ensures
        gcd(a, b) > 0,
    decreases b,
{
    if b > 0 {
        lemma_gcd_positive(b, a % b);
    }
}

/// The greatest common divisor divides both numbers.
pub proof fn lemma_gcd_divides(a: nat, b: nat)
    requires
        a > 0 || b > 0,
    ensures
        divides(gcd(a, b), a),
        divides(gcd(a, b), b),
    decreases b,
{
    let g = gcd(a, b);
    lemma_gcd_positive(a, b);
    if b > 0 {
        let r = a % b;
        lemma_gcd_divides(b, r);
        lemma_div_rem(a, b);
        lemma_divides_quotient(g, b);
        lemma_divides_quotient(g, r);
        let (kb, kr, q) = (b / g, r / g, a / b);
        assert(a == g * (kb * q + kr)) by (nonlinear_arith)
            requires
                a == b * q + r,
                b == g * kb,
                r == g * kr,
        ;
        lemma_divides_multiple(g, kb * q + kr);
    } else {
        lemma_divides_multiple(a, 1);
        lemma_divides_multiple(a, 0);
    }
}

/// Every common divisor of two numbers divides their greatest common
/// divisor.
pub proof fn lemma_gcd_greatest(a: nat, b: nat, c: nat)
    requires
        divides(c, a),
        divides(c, b),
    ensures
        divides(c, gcd(a, b)),
    decreases b,
{
    if b > 0 {
        let r = a % b;
        lemma_div_rem(a, b);
        lemma_divides_quotient(c, a);
        lemma_divides_quotient(c, b);
        let (ka, kb, q) = (a / c, b / c, a / b);
        assert(ka >= kb * q && r == c * (ka - kb * q)) by (nonlinear_arith)
            requires
                a == b * q + r,
                a == c * ka,
                b == c * kb,
                c > 0,
        ;
        lemma_divides_multiple(c, (ka - kb * q) as nat);
        lemma_gcd_greatest(b, r, c);
    }
}

/// A common factor of two numbers is a factor of their greatest common
/// divisor.
pub proof fn lemma_gcd_scales(a: nat, b: nat, k: nat)
    ensures
        gcd(k * a, k * b) == k * gcd(a, b),
    decreases b,
{
    if k == 0 {
        assert(k * a == 0 && k * b == 0 && k * gcd(a, b) == 0) by (nonlinear_arith)
            requires
                k == 0,
        ;
    } else if b > 0 {
        // the remainder scales as the two numbers do
        lemma_truncate_middle(a as int, k as int, b as int);
        assert(k * b > 0) by (nonlinear_arith)
            requires
                k > 0,
                b > 0,
        ;
        lemma_gcd_scales(b, a % b, k);
    } else {
        assert(k * b == 0) by (nonlinear_arith)
            requires
                b == 0,
        ;
    }
}

/// The greatest common divisor of `a` and `b`.
pub fn gcd_u64(a: u64, b: u64) -> (g: u64)
    ensures
        g == gcd(a as nat, b as nat),
    decreases b,
{
    if b > 0 {
        gcd_u64(b, a % b)
    } else {
        a
    }
}

} // verus!
