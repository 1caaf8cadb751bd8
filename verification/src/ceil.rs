//! Ratios applied to amounts with the result rounded up, and the amounts
//! behind a given result.

use vstd::prelude::*;
use core::ops::RangeInclusive;
use crate::bounds::{range_holds, returns_bounds, within, Bounds};
use crate::ratio::{Fraction, Ratio};
use crate::rounding::{
    ceil_div, div_ceil, floor_div, lemma_ceil_div_is, lemma_floor_div_greatest, mul_wide,
};
use crate::unsigned::Unsigned;
use crate::utils::{checked_u64, saturated, u128_to_u64_checked, u128_to_u64_saturating};

verus! {

impl Fraction {
    /// `x` times the fraction, rounded up.
    pub open spec fn ceil_apply(self, x: nat) -> nat {
        if self.is_zero() {
            0
        } else {
            ceil_div(x * self.n, self.d)
        }
    }

    /// The 64-bit amounts `x` with `ceil_apply(x) == y`, as a closed range.
    ///
    /// From `y - 1 < x * n / d <= y`: `x` is more than `(d * y - d) / n`
    /// rounded down, and at most `d * y / n` rounded down. A fraction that
    /// is not zero takes no amount but zero to zero. There are no bounds
    /// where no 64-bit amount gives `y`: where the fraction is zero and `y`
    /// is not, and where the least such amount exceeds 64 bits. An upper
    /// bound that exceeds 64 bits is cut to the largest `u64`.
    pub open spec fn ceil_reverse(self, y: nat) -> Option<Bounds> {
        if self.is_zero() {
            if y == 0 {
                Some(Bounds::full())
            } else {
                None
            }
        } else if y == 0 {
            Some(Bounds::only(0))
        } else {
            let min = floor_div((self.d * y - self.d) as nat, self.n) + 1;
            let max = floor_div(self.d * y, self.n);
            if min > u64::MAX {
                None
            } else {
                Some(Bounds { start: min, end: saturated(max) })
            }
        }
    }
}

/// The range that `ceil_reverse` gives for `y` holds exactly the 64-bit
/// amounts whose ceiling-application is `y`; where it gives none, there is
/// no such amount.
pub proof fn lemma_ceil_reverse_exact(f: Fraction, y: u64, x: u64)
    ensures
        within(f.ceil_reverse(y as nat), x as nat) <==> f.ceil_apply(x as nat) == y,
{
    if !f.is_zero() {
        let (n, d) = (f.n, f.d);
        let xn = x as nat * n;
        let dy = d * y as nat;
        lemma_ceil_div_is(xn, d, y as nat);
        if y == 0 {
            assert(xn == 0 <==> x == 0) by (nonlinear_arith)
                requires
                    xn == x * n,
                    n > 0,
            ;
            assert((y - 1) * d < 0 && y * d == 0) by (nonlinear_arith)
                requires
                    y == 0,
                    d > 0,
            ;
        } else {
            assert(y * d == dy && (y - 1) * d == dy - d && dy - d >= 0) by (nonlinear_arith)
                requires
                    dy == d * y,
                    y >= 1,
                    d > 0,
            ;
            lemma_floor_div_greatest((dy - d) as nat, n, x as nat);
            lemma_floor_div_greatest(dy, n, x as nat);
        }
    }
}

/// Reversal undoes application: the range for what an amount is taken to
/// holds that amount.
pub proof fn lemma_ceil_round_trip(f: Fraction, x: u64, y: u64)
    requires
        f.ceil_apply(x as nat) == y,
    ensures
        within(f.ceil_reverse(y as nat), x as nat),
{
    lemma_ceil_reverse_exact(f, y, x);
}

/// The range for `y` is tight: the amount just below it and the amount
/// just above it, where there are such, are not taken to `y`.
pub proof fn lemma_ceil_reverse_boundary(f: Fraction, y: u64, b: Bounds)
    requires
        f.ceil_reverse(y as nat) == Some(b),
    ensures
        b.start > 0 ==> f.ceil_apply((b.start - 1) as nat) != y,
        b.end < u64::MAX ==> f.ceil_apply(b.end + 1) != y,
{
    if b.start > 0 {
        lemma_ceil_reverse_exact(f, y, (b.start - 1) as u64);
    }
    if b.end < u64::MAX {
        lemma_ceil_reverse_exact(f, y, (b.end + 1) as u64);
    }
}

/// Rounding up gives what rounding down gives, or one more.
pub proof fn lemma_ceil_exceeds_floor_by_at_most_one(f: Fraction, x: nat)
    ensures
        f.floor_apply(x) <= f.ceil_apply(x) <= f.floor_apply(x) + 1,
{
}

/// A ratio `n / d` ceiling-applied to a `u64` `x`: the result is `x * n / d`
/// rounded up.
#[derive(Debug, Copy, PartialEq, Eq, PartialOrd, Ord, Hash)]
pub struct CeilDiv<R>(pub R);

impl<R: Copy> Clone for CeilDiv<R> {
    fn clone(&self) -> (copy: Self)
        ensures
            copy == *self,
    {
        *self
    }
}

impl<R> CeilDiv<R> {
    /// Wraps `r`.
    pub fn new(r: R) -> (ceil: Self)
        ensures
            ceil.0 == r,
    {
        Self(r)
    }
}

impl<N: Unsigned, D: Unsigned> CeilDiv<Ratio<N, D>> {
    /// `amount * n / d` rounded up: zero where the ratio is zero, and
    /// nothing where the result exceeds 64 bits.
    pub fn apply(&self, amount: u64) -> (applied: Option<u64>)
        ensures
            applied == checked_u64(self.0@.ceil_apply(amount as nat)),
    {
        if self.0.is_zero() {
            return Some(0);
        }
        let xn = mul_wide(amount, self.0.n.widen());
        let res = div_ceil(xn, self.0.d.widen());
        u128_to_u64_checked(res)
    }

    /// The range of amounts that [`Self::apply`] takes to `amt_after_apply`.
    ///
    /// It holds those amounts and no other. There is none where the ratio
    /// is zero and `amt_after_apply` is not, and none where every amount of
    /// 64 bits is taken to less. Where the amounts step over
    /// `amt_after_apply`, the range is empty: its start exceeds its end.
    pub fn reverse(&self, amt_after_apply: u64) -> (range: Option<RangeInclusive<u64>>)
        ensures
            returns_bounds(range, self.0@.ceil_reverse(amt_after_apply as nat)),
            forall|x: u64|
                range_holds(range, x) <==> #[trigger] self.0@.ceil_apply(x as nat)
                    == amt_after_apply,
    {
        proof {
            let (f, y) = (self.0@, amt_after_apply);
            assert forall|x: u64|
                within(f.ceil_reverse(y as nat), x as nat) <==> #[trigger] f.ceil_apply(x as nat)
                    == y by {
                lemma_ceil_reverse_exact(f, y, x);
            }
        }
        if self.0.is_zero() {
            return if amt_after_apply == 0 {
                Some(RangeInclusive::new(0, u64::MAX))
            } else {
                None
            };
        }
        // A ratio that is not zero takes only zero to zero; leaving here
        // keeps `dy - d` below from underflowing.
        if amt_after_apply == 0 {
            return Some(RangeInclusive::new(0, 0));
        }
        let n = self.0.n.widen();
        let d = self.0.d.widen();

        let dy = mul_wide(d, amt_after_apply);
        assert(dy >= d) by (nonlinear_arith)
            requires
                dy == d * amt_after_apply,
                amt_after_apply >= 1,
        ;
        let dy_minus_d = dy - d as u128;
        let min = div_ceil(dy_minus_d, n);
        let rem = dy_minus_d % (n as u128);
        let min = if rem == 0 {
            // the bound is exclusive, so one more
            min + 1
        } else {
            min
        };
        let min = match u128_to_u64_checked(min) {
            None => return None,
            Some(r) => r,
        };

        let max = u128_to_u64_saturating(dy / (n as u128));

        Some(RangeInclusive::new(min, max))
    }
}

} // verus!
