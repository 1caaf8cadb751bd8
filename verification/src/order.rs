//! The order of ratios by the numbers they stand for, and with it their
//! equality and their hash.

use vstd::prelude::*;
use vstd::std_specs::cmp::{PartialEqSpecImpl, PartialOrdSpecImpl};
use core::cmp::Ordering;
use core::hash::{Hash, Hasher};
use crate::gcd::{gcd, lemma_gcd_scales};
use crate::ratio::{lemma_lowest_form_divides, Fraction, Ratio};
use crate::rounding::mul_wide;
use crate::unsigned::Unsigned;

verus! {

impl Fraction {
    /// How the fraction compares with `other` as a number.
    ///
    /// Zero, however it is written, equals zero and is less than all else.
    /// Two fractions that are not zero compare as their cross products
    /// `self.n * other.d` and `other.n * self.d` do.
    pub open spec fn compare(self, other: Fraction) -> Ordering {
        if self.is_zero() && other.is_zero() {
            Ordering::Equal
        } else if self.is_zero() {
            Ordering::Less
        } else if other.is_zero() {
            Ordering::Greater
        } else if self.n * other.d == other.n * self.d {
            Ordering::Equal
        } else if self.n * other.d < other.n * self.d {
            Ordering::Less
        } else {
            Ordering::Greater
        }
    }
}

/// Every fraction equals itself.
pub proof fn lemma_compare_reflexive(a: Fraction)
    ensures
        a.compare(a) == Ordering::Equal,
{
}

/// Comparing the other way round gives the opposite answer.
pub proof fn lemma_compare_antisymmetric(a: Fraction, b: Fraction)
    ensures
        a.compare(b) == Ordering::Less <==> b.compare(a) == Ordering::Greater,
        a.compare(b) == Ordering::Equal <==> b.compare(a) == Ordering::Equal,
        a.compare(b) == Ordering::Greater <==> b.compare(a) == Ordering::Less,
{
}

/// The order is transitive: what is at most `b`, which is at most `c`, is
/// at most `c`, and equal to `c` only where it equals `b` and `b` equals
/// `c`.
pub proof fn lemma_compare_transitive(a: Fraction, b: Fraction, c: Fraction)
    requires
        a.compare(b) != Ordering::Greater,
        b.compare(c) != Ordering::Greater,
    ensures
        a.compare(c) != Ordering::Greater,
        a.compare(c) == Ordering::Equal <==> (a.compare(b) == Ordering::Equal && b.compare(c)
            == Ordering::Equal),
{
    if !a.is_zero() && !b.is_zero() && !c.is_zero() {
        let (ab, ba) = (a.n * b.d, b.n * a.d);
        let (bc, cb) = (b.n * c.d, c.n * b.d);
        let (ac, ca) = (a.n * c.d, c.n * a.d);
        assert(ac <= ca && (ac == ca <==> (ab == ba && bc == cb))) by (nonlinear_arith)
            requires
                ab == a.n * b.d,
                ba == b.n * a.d,
                bc == b.n * c.d,
                cb == c.n * b.d,
                ac == a.n * c.d,
                ca == c.n * a.d,
                ab <= ba,
                bc <= cb,
                a.n > 0,
                a.d > 0,
                b.n > 0,
                b.d > 0,
                c.n > 0,
                c.d > 0,
        ;
    }
}

/// A fraction's lowest form is the same number, and is its own lowest
/// form: its components have no common divisor but one.
pub proof fn lemma_lowest_form_is_lowest(a: Fraction)
    ensures
        a.compare(a.lowest_form()) == Ordering::Equal,
        a.lowest_form().lowest_form() == a.lowest_form(),
        !a.is_zero() ==> gcd(a.lowest_form().d, a.lowest_form().n) == 1,
{
    if !a.is_zero() {
        lemma_lowest_form_divides(a);
        let l = a.lowest_form();
        let g = gcd(a.d, a.n);
        assert(a.n * l.d == l.n * a.d) by (nonlinear_arith)
            requires
                a.n == g * l.n,
                a.d == g * l.d,
        ;
        lemma_gcd_scales(l.d, l.n, g);
        assert(gcd(l.d, l.n) == 1) by (nonlinear_arith)
            requires
                g == g * gcd(l.d, l.n),
                g > 0,
        ;
    }
}

/// Fractions compare as their lowest forms do.
pub proof fn lemma_compare_lowest_forms(a: Fraction, b: Fraction)
    ensures
        a.compare(b) == a.lowest_form().compare(b.lowest_form()),
{
    if !a.is_zero() && !b.is_zero() {
        lemma_lowest_form_divides(a);
        lemma_lowest_form_divides(b);
        let (la, lb) = (a.lowest_form(), b.lowest_form());
        let (ga, gb) = (gcd(a.d, a.n), gcd(b.d, b.n));
        assert((a.n * b.d == b.n * a.d <==> la.n * lb.d == lb.n * la.d) && (a.n * b.d < b.n * a.d
            <==> la.n * lb.d < lb.n * la.d)) by (nonlinear_arith)
            requires
                a.n == ga * la.n,
                a.d == ga * la.d,
                b.n == gb * lb.n,
                b.d == gb * lb.d,
                ga > 0,
                gb > 0,
        ;
    } else if !a.is_zero() {
        lemma_lowest_form_divides(a);
    } else if !b.is_zero() {
        lemma_lowest_form_divides(b);
    }
}

/// Two fractions are equal as numbers exactly where their lowest forms are
/// the same, component by component.
pub proof fn lemma_equal_iff_same_lowest_form(a: Fraction, b: Fraction)
    ensures
        a.compare(b) == Ordering::Equal <==> a.lowest_form() == b.lowest_form(),
{
    if !a.is_zero() && !b.is_zero() {
        lemma_lowest_form_divides(a);
        lemma_lowest_form_divides(b);
        let (la, lb) = (a.lowest_form(), b.lowest_form());
        let (ga, gb) = (gcd(a.d, a.n), gcd(b.d, b.n));
        if la == lb {
            assert(a.n * b.d == b.n * a.d) by (nonlinear_arith)
                requires
                    a.n == ga * la.n,
                    a.d == ga * la.d,
                    b.n == gb * la.n,
                    b.d == gb * la.d,
            ;
        }
        if a.n * b.d == b.n * a.d {
            // both products below are the greatest common divisor of
            // `a.d * b.d` and the one cross product
            lemma_gcd_scales(a.d, a.n, b.d);
            lemma_gcd_scales(b.d, b.n, a.d);
            assert(b.d * a.d == a.d * b.d && b.d * a.n == a.d * b.n) by (nonlinear_arith)
                requires
                    a.n * b.d == b.n * a.d,
            ;
            let k = b.d * ga;
            assert(k > 0) by (nonlinear_arith)
                requires
                    k == b.d * ga,
                    b.d > 0,
                    ga > 0,
            ;
            assert(la.n == lb.n && la.d == lb.d) by (nonlinear_arith)
                requires
                    a.n == ga * la.n,
                    a.d == ga * la.d,
                    b.n == gb * lb.n,
                    b.d == gb * lb.d,
                    a.n * b.d == b.n * a.d,
                    k == b.d * ga,
                    k == a.d * gb,
                    k > 0,
            ;
        }
    } else if !a.is_zero() {
        lemma_lowest_form_divides(a);
    } else if !b.is_zero() {
        lemma_lowest_form_divides(b);
    }
}

impl<N: Unsigned, D: Unsigned> Ratio<N, D> {
    /// How this ratio compares with `other` as a number. Ratios that are
    /// zero equal each other and are less than all others.
    pub fn const_cmp(&self, other: &Self) -> (order: Ordering)
        ensures
            order == self@.compare(other@),
    {
        match (self.is_zero(), other.is_zero()) {
            (true, true) => return Ordering::Equal,
            (true, false) => return Ordering::Less,
            (false, true) => return Ordering::Greater,
            (false, false) => (),
        };
        let lhs = mul_wide(self.n.widen(), other.d.widen());
        let rhs = mul_wide(other.n.widen(), self.d.widen());
        if lhs == rhs {
            Ordering::Equal
        } else if lhs < rhs {
            Ordering::Less
        } else {
            Ordering::Greater
        }
    }
}

impl<N: Unsigned, D: Unsigned> PartialEq for Ratio<N, D> {
    /// Whether the two ratios are the same number.
    fn eq(&self, other: &Self) -> (equal: bool) {
        match self.const_cmp(other) {
            Ordering::Equal => true,
            _ => false,
        }
    }
}

impl<N: Unsigned, D: Unsigned> PartialEqSpecImpl for Ratio<N, D> {
    open spec fn obeys_eq_spec() -> bool {
        true
    }

    open spec fn eq_spec(&self, other: &Self) -> bool {
        self@.compare(other@) == Ordering::Equal
    }
}

impl<N: Unsigned, D: Unsigned> Eq for Ratio<N, D> {
}

impl<N: Unsigned, D: Unsigned> PartialOrd for Ratio<N, D> {
    /// How the two ratios compare as numbers; there is always an answer.
    fn partial_cmp(&self, other: &Self) -> (order: Option<Ordering>) {
        Some(self.const_cmp(other))
    }
}

impl<N: Unsigned, D: Unsigned> PartialOrdSpecImpl for Ratio<N, D> {
    open spec fn obeys_partial_cmp_spec() -> bool {
        true
    }

    open spec fn partial_cmp_spec(&self, other: &Self) -> Option<Ordering> {
        Some(self@.compare(other@))
    }
}

impl<N: Unsigned, D: Unsigned> Hash for Ratio<N, D> {
    /// Feeds the hasher the ratio's lowest form, so that ratios that are
    /// equal as numbers feed it the same.
    fn hash<H: Hasher>(&self, state: &mut H) {
        let (n, d) = self.lowest_terms();
        hash_u64(n, state);
        hash_u64(d, state);
    }
}

/// Feeds `x` to `state` through `u64`'s `core::hash::Hash::hash`.
///
/// Trusted, not proved; nothing is claimed of the hasher afterwards.
#[verifier::external_body]
fn hash_u64<H: Hasher>(x: u64, state: &mut H) {
    x.hash(state)
}

} // verus!
