//! Ratios of two unsigned integers, each of its own width, and the
//! fractions they stand for.

use vstd::prelude::*;
use crate::gcd::{gcd, gcd_u64, lemma_gcd_divides, lemma_gcd_positive, lemma_divides_quotient};
use crate::unsigned::Unsigned;

verus! {

/// The non-negative fraction `n / d` that a [`Ratio`] stands for.
///
/// A denominator of zero stands for zero, as a numerator of zero does.
pub struct Fraction {
    pub n: nat,
    pub d: nat,
}

impl Fraction {
    /// The fraction is zero: applied to any amount it gives zero.
    pub open spec fn is_zero(self) -> bool {
        self.n == 0 || self.d == 0
    }

    /// The fraction is one: applied to any amount it gives that amount.
    pub open spec fn is_one(self) -> bool {
        !self.is_zero() && self.n == self.d
    }

    /// The fraction with both components divided by their greatest common
    /// divisor; `0 / 0` where the fraction is zero.
    pub open spec fn lowest_form(self) -> Fraction {
        if self.is_zero() {
            Fraction { n: 0, d: 0 }
        } else {
            Fraction { n: self.n / gcd(self.d, self.n), d: self.d / gcd(self.d, self.n) }
        }
    }
}

/// Dividing by the greatest common divisor leaves no remainder, and makes
/// neither component larger.
pub proof fn lemma_lowest_form_divides(f: Fraction)
    requires
        !f.is_zero(),
    ensures
        f.n == gcd(f.d, f.n) * f.lowest_form().n,
        f.d == gcd(f.d, f.n) * f.lowest_form().d,
        gcd(f.d, f.n) > 0,
        0 < f.lowest_form().n <= f.n,
        0 < f.lowest_form().d <= f.d,
{
    let g = gcd(f.d, f.n);
    let l = f.lowest_form();
    lemma_gcd_positive(f.d, f.n);
    lemma_gcd_divides(f.d, f.n);
    lemma_divides_quotient(g, f.n);
    lemma_divides_quotient(g, f.d);
    assert(0 < l.n <= f.n && 0 < l.d <= f.d) by (nonlinear_arith)
        requires
            f.n == g * l.n,
            f.d == g * l.d,
            g > 0,
            f.n > 0,
            f.d > 0,
    ;
}

/// A ratio that is applied to a `u64` amount.
///
/// A ratio whose denominator is zero is the zero ratio, like one whose
/// numerator is zero.
#[derive(Debug, Copy)]
pub struct Ratio<N, D> {
    /// Numerator
    pub n: N,
    /// Denominator
    pub d: D,
}

impl<N: Copy, D: Copy> Clone for Ratio<N, D> {
    fn clone(&self) -> (copy: Self)
        ensures
            copy == *self,
    {
        *self
    }
}

impl<N: Unsigned, D: Unsigned> View for Ratio<N, D> {
    type V = Fraction;

    open spec fn view(&self) -> Fraction {
        Fraction { n: self.n.value(), d: self.d.value() }
    }
}

/// The integer types that arithmetic on a ratio type goes through.
pub trait ArithTypes: View<V = Fraction> {
    /// The narrower of the numerator's and the denominator's type.
    type Min: Unsigned;

    /// The wider of the numerator's and the denominator's type.
    type Max: Unsigned;

    /// A type of twice the width of `Max`, which holds any product of a
    /// numerator and a denominator.
    type Ext;

    /// `Max` holds every numerator and every denominator, and `Min` holds
    /// every numerator or every denominator.
    proof fn lemma_max_holds_both(&self)
        ensures
            self@.n <= Self::Max::limit(),
            self@.d <= Self::Max::limit(),
            self@.n <= Self::Min::limit() || self@.d <= Self::Min::limit(),
            Self::Min::limit() <= Self::Max::limit(),
    ;
}

impl<N, D> Ratio<N, D> {
    /// The ratio `n / d`.
    pub fn new(n: N, d: D) -> (ratio: Self)
        ensures
            ratio.n == n,
            ratio.d == d,
    {
        Self { n, d }
    }
}

impl<N: Unsigned, D: Unsigned> Ratio<N, D> {
    /// The zero ratio, written `0 / 0`.
    pub fn zero() -> (ratio: Self)
        ensures
            ratio@ == (Fraction { n: 0, d: 0 }),
    {
        Self { n: N::narrow(0), d: D::narrow(0) }
    }

    /// The ratio one, written `1 / 1`.
    pub fn one() -> (ratio: Self)
        ensures
            ratio@ == (Fraction { n: 1, d: 1 }),
    {
        proof {
            N::lemma_limit_in_range();
            D::lemma_limit_in_range();
        }
        Self { n: N::narrow(1), d: D::narrow(1) }
    }

    /// Whether this ratio is zero, so that applying it to any amount gives
    /// zero.
    pub fn is_zero(&self) -> (zero: bool)
        ensures
            zero == self@.is_zero(),
    {
        self.n.widen() == 0 || self.d.widen() == 0
    }

    /// Whether this ratio is one, so that applying it to any amount gives
    /// that amount.
    pub fn is_one(&self) -> (one: bool)
        ensures
            one == self@.is_one(),
    {
        !self.is_zero() && self.n.widen() == self.d.widen()
    }
}

impl<N: Unsigned, D: Unsigned> Ratio<N, D> {
    /// The numerator and the denominator of the ratio's lowest form, each
    /// in 64 bits.
    pub fn lowest_terms(&self) -> (lowest: (u64, u64))
        ensures
            lowest.0 == self@.lowest_form().n,
            lowest.1 == self@.lowest_form().d,
    {
        if self.is_zero() {
            return (0, 0);
        }
        let n = self.n.widen();
        let d = self.d.widen();
        // the denominator is mostly the larger, so it goes first
        let g = gcd_u64(d, n);
        proof {
            lemma_lowest_form_divides(self@);
        }
        (n / g, d / g)
    }
}

impl<N: Unsigned, D: Unsigned> Ratio<N, D> where Self: ArithTypes {
    /// The ratio in its lowest form: both components divided by their
    /// greatest common divisor, in the wider of their types. The lowest form
    /// of a zero ratio is `0 / 0`.
    pub fn lowest_form(&self) -> (lowest: Ratio<
        <Self as ArithTypes>::Max,
        <Self as ArithTypes>::Max,
    >)
        ensures
            lowest@ == self@.lowest_form(),
    {
        let (n, d) = self.lowest_terms();
        proof {
            if !self@.is_zero() {
                lemma_lowest_form_divides(self@);
            }
            self.lemma_max_holds_both();
        }
        Ratio {
            n: <Self as ArithTypes>::Max::narrow(n),
            d: <Self as ArithTypes>::Max::narrow(d),
        }
    }
}

impl<N: Unsigned, D: Unsigned> Default for Ratio<N, D> {
    /// The zero ratio, written `0 / 0`.
    fn default() -> (ratio: Self)
        ensures
            ratio@ == (Fraction { n: 0, d: 0 }),
    {
        Self::zero()
    }
}

impl ArithTypes for Ratio<u8, u8> {
    type Min = u8;
    type Max = u8;
    type Ext = u16;

    proof fn lemma_max_holds_both(&self) {
    }
}

impl ArithTypes for Ratio<u8, u16> {
    type Min = u8;
    type Max = u16;
    type Ext = u32;

    proof fn lemma_max_holds_both(&self) {
    }
}

impl ArithTypes for Ratio<u8, u32> {
    type Min = u8;
    type Max = u32;
    type Ext = u64;

    proof fn lemma_max_holds_both(&self) {
    }
}

impl ArithTypes for Ratio<u8, u64> {
    type Min = u8;
    type Max = u64;
    type Ext = u128;

    proof fn lemma_max_holds_both(&self) {
    }
}

impl ArithTypes for Ratio<u16, u8> {
    type Min = u8;
    type Max = u16;
    type Ext = u32;

    proof fn lemma_max_holds_both(&self) {
    }
}

impl ArithTypes for Ratio<u16, u16> {
    type Min = u16;
    type Max = u16;
    type Ext = u32;

    proof fn lemma_max_holds_both(&self) {
    }
}

impl ArithTypes for Ratio<u16, u32> {
    type Min = u16;
    type Max = u32;
    type Ext = u64;

    proof fn lemma_max_holds_both(&self) {
    }
}

impl ArithTypes for Ratio<u16, u64> {
    type Min = u16;
    type Max = u64;
    type Ext = u128;

    proof fn lemma_max_holds_both(&self) {
    }
}

impl ArithTypes for Ratio<u32, u8> {
    type Min = u8;
    type Max = u32;
    type Ext = u64;

    proof fn lemma_max_holds_both(&self) {
    }
}

impl ArithTypes for Ratio<u32, u16> {
    type Min = u16;
    type Max = u32;
    type Ext = u64;

    proof fn lemma_max_holds_both(&self) {
    }
}

impl ArithTypes for Ratio<u32, u32> {
    type Min = u32;
    type Max = u32;
    type Ext = u64;

    proof fn lemma_max_holds_both(&self) {
    }
}

impl ArithTypes for Ratio<u32, u64> {
    type Min = u32;
    type Max = u64;
    type Ext = u128;

    proof fn lemma_max_holds_both(&self) {
    }
}

impl ArithTypes for Ratio<u64, u8> {
    type Min = u8;
    type Max = u64;
    type Ext = u128;

    proof fn lemma_max_holds_both(&self) {
    }
}

impl ArithTypes for Ratio<u64, u16> {
    type Min = u16;
    type Max = u64;
    type Ext = u128;

    proof fn lemma_max_holds_both(&self) {
    }
}

impl ArithTypes for Ratio<u64, u32> {
    type Min = u32;
    type Max = u64;
    type Ext = u128;

    proof fn lemma_max_holds_both(&self) {
    }
}

impl ArithTypes for Ratio<u64, u64> {
    type Min = u64;
    type Max = u64;
    type Ext = u128;

    proof fn lemma_max_holds_both(&self) {
    }
}

} // verus!
