//! Ratios applied to amounts with the result rounded down, and the amounts
//! behind a given result.

use vstd::prelude::*;
use core::ops::RangeInclusive;
use crate::bounds::{range_holds, returns_bounds, within, Bounds};
use crate::ratio::{Fraction, Ratio};
use crate::rounding::{
    ceil_div, div_ceil, floor_div, lemma_ceil_div_least, lemma_floor_div_is, mul_wide,
};
use crate::unsigned::Unsigned;
use crate::utils::{checked_u64, saturated, u128_to_u64_checked, u128_to_u64_saturating};

verus! {

impl Fraction {
    /// `x` times the fraction, rounded down.
    pub open spec fn floor_apply(self, x: nat) -> nat {
        if self.is_zero() {
            0
        } else {
            floor_div(x * self.n, self.d)
        }
    }

    /// The 64-bit amounts `x` with `floor_apply(x) == y`, as a closed range.
    ///
    /// From `y <= x * n / d < y + 1`: `x` is at least `d * y / n` rounded up,
    /// and less than `(d * y + d) / n` rounded up. There are no bounds where
    /// no 64-bit amount gives `y`: where the fraction is zero and `y` is
    /// not, and where the least such amount exceeds 64 bits. An upper bound
    /// that exceeds 64 bits is cut to the largest `u64`.
    pub open spec fn floor_reverse(self, y: nat) -> Option<Bounds> {
        if self.is_zero() {
            if y == 0 {
                Some(Bounds::full())
            } else {
                None
            }
        } else {
            let min = ceil_div(self.d * y, self.n);
            let max = (ceil_div(self.d * y + self.d, self.n) - 1) as nat;
            if min > u64::MAX {
                None
            } else {
                Some(Bounds { start: min, end: saturated(max) })
            }
        }
    }
}

/// The range that `floor_reverse` gives for `y` holds exactly the 64-bit
/// amounts whose floor-application is `y`; where it gives none, there is no
/// such amount.
pub proof fn lemma_floor_reverse_exact(f: Fraction, y: u64, x: u64)
    ensures
        within(f.floor_reverse(y as nat), x as nat) <==> f.floor_apply(x as nat) == y,
{
    if !f.is_zero() {
        let (n, d) = (f.n, f.d);
        let xn = x as nat * n;
        let dy = d * y as nat;
        lemma_floor_div_is(xn, d, y as nat);
        lemma_ceil_div_least(dy, n, x as nat);
        lemma_ceil_div_least(dy + d, n, x as nat);
        lemma_ceil_div_least(dy + d, n, 0);
        assert(y * d == dy && (y + 1) * d == dy + d) by (nonlinear_arith)
            requires
                dy == d * y,
        ;
    }
}

/// Reversal undoes application: the range for what an amount is taken to
/// holds that amount.
pub proof fn lemma_floor_round_trip(f: Fraction, x: u64, y: u64)
    requires
        f.floor_apply(x as nat) == y,
    ensures
        within(f.floor_reverse(y as nat), x as nat),
{
    lemma_floor_reverse_exact(f, y, x);
}

/// The range for `y` is tight: the amount just below it and the amount
/// just above it, where there are such, are not taken to `y`.
pub proof fn lemma_floor_reverse_boundary(f: Fraction, y: u64, b: Bounds)
    requires
        f.floor_reverse(y as nat) == Some(b),
    ensures
        b.start > 0 ==> f.floor_apply((b.start - 1) as nat) != y,
        b.end < u64::MAX ==> f.floor_apply(b.end + 1) != y,
{
    if b.start > 0 {
        lemma_floor_reverse_exact(f, y, (b.start - 1) as u64);
    }
    if b.end < u64::MAX {
        lemma_floor_reverse_exact(f, y, (b.end + 1) as u64);
    }
}

/// A ratio `n / d` floor-applied to a `u64` `x`: the result is `x * n / d`
/// rounded down.
#[derive(Debug, Copy, PartialEq, Eq, PartialOrd, Ord, Hash)]
pub struct Floor<R>(pub R);

impl<R: Copy> Clone for Floor<R> {
    fn clone(&self) -> (copy: Self)
        ensures
            copy == *self,
    {
        *self
    }
}

impl<R> Floor<R> {
    /// Wraps `r`.
    pub fn new(r: R) -> (floor: Self)
        ensures
            floor.0 == r,
    {
        Self(r)
    }
}

impl<N: Unsigned, D: Unsigned> Floor<Ratio<N, D>> {
    /// `amount * n / d` rounded down: zero where the ratio is zero, and
    /// nothing where the result exceeds 64 bits.
    pub fn apply(&self, amount: u64) -> (applied: Option<u64>)
        ensures
            applied == checked_u64(self.0@.floor_apply(amount as nat)),
    {
        if self.0.is_zero() {
            return Some(0);
        }
        let xn = mul_wide(amount, self.0.n.widen());
        let res = xn / (self.0.d.widen() as u128);
        u128_to_u64_checked(res)
    }

    /// The range of amounts that [`Self::apply`] takes to `amt_after_apply`.
    ///
    /// It holds those amounts and no other. There is none where the ratio
    /// is zero and `amt_after_apply` is not, and none where every amount of
    /// 64 bits is taken to less. Where the amounts step over
    /// `amt_after_apply`, the range is empty: its start exceeds its end.
    pub fn reverse(&self, amt_after_apply: u64) -> (range: Option<RangeInclusive<u64>>)
        ensures
            returns_bounds(range, self.0@.floor_reverse(amt_after_apply as nat)),
            forall|x: u64|
                range_holds(range, x) <==> #[trigger] self.0@.floor_apply(x as nat)
                    == amt_after_apply,
    {
        proof {
            let (f, y) = (self.0@, amt_after_apply);
            assert forall|x: u64|
                within(f.floor_reverse(y as nat), x as nat) <==> #[trigger] f.floor_apply(x as nat)
                    == y by {
                lemma_floor_reverse_exact(f, y, x);
            }
        }
        if self.0.is_zero() {
            return if amt_after_apply == 0 {
                Some(RangeInclusive::new(0, u64::MAX))
            } else {
                None
            };
        }
        let n = self.0.n.widen();
        let d = self.0.d.widen();

        let dy = mul_wide(d, amt_after_apply);
        let min = match u128_to_u64_checked(div_ceil(dy, n)) {
            None => return None,
            Some(r) => r,
        };

        assert(dy + d <= u128::MAX) by (nonlinear_arith)
            requires
                dy == d * amt_after_apply,
                d <= u64::MAX,
                amt_after_apply <= u64::MAX,
        ;
        let dy_plus_d = dy + d as u128;
        let max = dy_plus_d / (n as u128);
        let rem = dy_plus_d % (n as u128);
        let max = if rem == 0 {
            // the bound is exclusive, so one less
            max.saturating_sub(1)
        } else {
            max
        };
        proof {
            // the rounded-up quotient is not zero, so that one less is no less
            lemma_ceil_div_least(dy_plus_d as nat, n as nat, 0);
        }
        let max = u128_to_u64_saturating(max);

        Some(RangeInclusive::new(min, max))
    }
}

} // verus!
