//! Fees: ratios of at most one that split an amount into the fee and what
//! remains of it.

use vstd::prelude::*;
use core::ops::RangeInclusive;
use crate::aft_bef_fee::{AftFee, BefFee};
use crate::bounds::{range_holds, returns_bounds, within, Bounds};
use crate::ceil::{lemma_ceil_reverse_exact, CeilDiv};
use crate::floor::{lemma_floor_reverse_exact, Floor};
use crate::ratio::{ArithTypes, Fraction, Ratio};
use crate::rounding::{lemma_ceil_div_is, lemma_ceil_div_least, lemma_floor_div_is};
use crate::unsigned::Unsigned;

verus! {

impl Fraction {
    /// The fraction is at most one and has a denominator that is not zero:
    /// what a fee may be.
    pub open spec fn is_fee(self) -> bool {
        self.d != 0 && self.n <= self.d
    }

    /// One less the fraction, for a fraction of at most one: `(d - n) / d`,
    /// and `1 / 1` where the fraction is zero.
    pub open spec fn one_minus(self) -> Fraction {
        if self.is_zero() {
            Fraction { n: 1, d: 1 }
        } else {
            Fraction { n: (self.d - self.n) as nat, d: self.d }
        }
    }

    /// The amounts of which `rem` remains after a fee of this fraction,
    /// rounded up, was levied.
    ///
    /// What remains of `x` after a fee rounded up is `x` times one less the
    /// fraction, rounded down.
    pub open spec fn ceil_fee_reverse_from_rem(self, rem: nat) -> Option<Bounds> {
        if self.is_zero() {
            Some(Bounds::only(rem))
        } else {
            self.one_minus().floor_reverse(rem)
        }
    }

    /// The amounts on which a fee of this fraction, rounded up, is `fee`.
    pub open spec fn ceil_fee_reverse_from_fee(self, fee: nat) -> Option<Bounds> {
        if self.is_one() {
            Some(Bounds::only(fee))
        } else {
            self.ceil_reverse(fee)
        }
    }

    /// The amounts of which `rem` remains after a fee of this fraction,
    /// rounded down, was levied.
    ///
    /// What remains of `x` after a fee rounded down is `x` times one less
    /// the fraction, rounded up.
    pub open spec fn floor_fee_reverse_from_rem(self, rem: nat) -> Option<Bounds> {
        if self.is_zero() {
            Some(Bounds::only(rem))
        } else {
            self.one_minus().ceil_reverse(rem)
        }
    }

    /// The amounts on which a fee of this fraction, rounded down, is `fee`.
    pub open spec fn floor_fee_reverse_from_fee(self, fee: nat) -> Option<Bounds> {
        if self.is_one() {
            Some(Bounds::only(fee))
        } else {
            self.floor_reverse(fee)
        }
    }
}

/// The fraction one takes every amount to itself, whichever way it rounds.
pub proof fn lemma_apply_one(f: Fraction, x: nat)
    requires
        f.is_one(),
    ensures
        f.floor_apply(x) == x,
        f.ceil_apply(x) == x,
{
    lemma_floor_div_is(x * f.n, f.d, x);
    lemma_ceil_div_is(x * f.n, f.d, x);
    assert((x - 1) * f.d < x * f.d < (x + 1) * f.d) by (nonlinear_arith)
        requires
            f.d > 0,
    ;
}

/// A fee is at most the amount it is levied on, and what remains is the
/// amount times one less the fee's fraction, rounded the other way.
pub proof fn lemma_fee_rem_dual(f: Fraction, x: nat)
    requires
        f.is_fee(),
    ensures
        f.floor_apply(x) <= f.ceil_apply(x) <= x,
        x - f.ceil_apply(x) == f.one_minus().floor_apply(x),
        x - f.floor_apply(x) == f.one_minus().ceil_apply(x),
{
    if f.is_zero() {
        lemma_apply_one(f.one_minus(), x);
    } else {
        let (n, d) = (f.n, f.d);
        let m = (d - n) as nat;
        let (up, down) = (f.ceil_apply(x), f.floor_apply(x));
        lemma_ceil_div_least(x * n, d, x);
        assert(x * d >= x * n) by (nonlinear_arith)
            requires
                n <= d,
        ;
        lemma_ceil_div_is(x * n, d, up);
        lemma_floor_div_is(x * n, d, down);
        assert(x * m == x * d - x * n) by (nonlinear_arith)
            requires
                m == d - n,
        ;
        let (rem_down, rem_up) = ((x - up) as nat, (x - down) as nat);
        assert(rem_down * d <= x * m < (rem_down + 1) * d) by (nonlinear_arith)
            requires
                rem_down == x - up,
                x * m == x * d - x * n,
                (up - 1) * d < x * n <= up * d,
        ;
        assert((rem_up - 1) * d < x * m <= rem_up * d) by (nonlinear_arith)
            requires
                rem_up == x - down,
                x * m == x * d - x * n,
                down * d <= x * n < (down + 1) * d,
        ;
        if m > 0 {
            lemma_floor_div_is(x * m, d, rem_down);
            lemma_ceil_div_is(x * m, d, rem_up);
        } else {
            assert(x * m == 0) by (nonlinear_arith)
                requires
                    m == 0,
            ;
            assert(rem_down == 0 && rem_up == 0) by (nonlinear_arith)
                requires
                    rem_down * d <= 0,
                    (rem_up - 1) * d < 0,
                    d > 0,
            ;
        }
    }
}

/// The range that `ceil_fee_reverse_from_rem` gives holds exactly the
/// 64-bit amounts of which `rem` remains; where it gives none, there is no
/// such amount.
pub proof fn lemma_ceil_fee_reverse_from_rem_exact(f: Fraction, rem: u64, x: u64)
    requires
        f.is_fee(),
    ensures
        within(f.ceil_fee_reverse_from_rem(rem as nat), x as nat)
            <==> x - f.ceil_apply(x as nat) == rem,
{
    lemma_fee_rem_dual(f, x as nat);
    lemma_floor_reverse_exact(f.one_minus(), rem, x);
}

/// The range that `ceil_fee_reverse_from_fee` gives holds exactly the
/// 64-bit amounts on which the fee is `fee`; where it gives none, there is
/// no such amount.
pub proof fn lemma_ceil_fee_reverse_from_fee_exact(f: Fraction, fee: u64, x: u64)
    ensures
        within(f.ceil_fee_reverse_from_fee(fee as nat), x as nat)
            <==> f.ceil_apply(x as nat) == fee,
{
    if f.is_one() {
        lemma_apply_one(f, x as nat);
    } else {
        lemma_ceil_reverse_exact(f, fee, x);
    }
}

/// The range that `floor_fee_reverse_from_rem` gives holds exactly the
/// 64-bit amounts of which `rem` remains; where it gives none, there is no
/// such amount.
pub proof fn lemma_floor_fee_reverse_from_rem_exact(f: Fraction, rem: u64, x: u64)
    requires
        f.is_fee(),
    ensures
        within(f.floor_fee_reverse_from_rem(rem as nat), x as nat)
            <==> x - f.floor_apply(x as nat) == rem,
{
    lemma_fee_rem_dual(f, x as nat);
    lemma_ceil_reverse_exact(f.one_minus(), rem, x);
}

/// The range that `floor_fee_reverse_from_fee` gives holds exactly the
/// 64-bit amounts on which the fee is `fee`; where it gives none, there is
/// no such amount.
pub proof fn lemma_floor_fee_reverse_from_fee_exact(f: Fraction, fee: u64, x: u64)
    ensures
        within(f.floor_fee_reverse_from_fee(fee as nat), x as nat)
            <==> f.floor_apply(x as nat) == fee,
{
    if f.is_one() {
        lemma_apply_one(f, x as nat);
    } else {
        lemma_floor_reverse_exact(f, fee, x);
    }
}

/// A ratio that is applied with its result rounded one way or the other.
pub trait Rounded {
    /// The fraction that the ratio stands for.
    spec fn fraction(&self) -> Fraction;
}

impl<N: Unsigned, D: Unsigned> Rounded for CeilDiv<Ratio<N, D>> {
    open spec fn fraction(&self) -> Fraction {
        self.0@
    }
}

impl<N: Unsigned, D: Unsigned> Rounded for Floor<Ratio<N, D>> {
    open spec fn fraction(&self) -> Fraction {
        self.0@
    }
}

/// A fee that is levied on an amount as a ratio of it.
///
/// The ratio is at most one and has a denominator that is not zero. The
/// field is private so that nothing can break this.
#[derive(Debug, Copy, PartialEq, Eq, PartialOrd, Ord, Hash)]
pub struct Fee<D: Rounded>(D);

impl<D: Rounded + Copy> Clone for Fee<D> {
    fn clone(&self) -> (copy: Self)
        ensures
            copy == *self,
    {
        *self
    }
}

impl<D: Rounded> Fee<D> {
    #[verifier::type_invariant]
    spec fn ratio_is_fee(self) -> bool {
        self.0.fraction().is_fee()
    }

    /// The rounded ratio that the fee is made of.
    pub closed spec fn inner(self) -> D {
        self.0
    }

    /// The fraction of an amount that the fee is.
    pub open spec fn fraction(self) -> Fraction {
        self.inner().fraction()
    }

    /// A fee is what its rounded ratio is.
    pub proof fn lemma_same_inner_same_fee(self, other: Self)
        requires
            self.inner() == other.inner(),
        ensures
            self == other,
    {
    }

    /// The rounded ratio that the fee is made of, which is at most one.
    pub fn as_inner_ref(&self) -> (inner: &D)
        ensures
            *inner == self.inner(),
            inner.fraction().is_fee(),
    {
        proof {
            use_type_invariant(self);
        }
        &self.0
    }
}

impl<D: Rounded + Copy> Fee<D> {
    /// The rounded ratio that the fee is made of, which is at most one.
    pub fn to_inner(self) -> (inner: D)
        ensures
            inner == self.inner(),
            inner.fraction().is_fee(),
    {
        proof {
            use_type_invariant(self);
        }
        self.0
    }
}

impl<D: Rounded> AsRef<D> for Fee<D> {
    fn as_ref(&self) -> (inner: &D)
        ensures
            *inner == self.inner(),
    {
        self.as_inner_ref()
    }
}

impl<D: Rounded> core::borrow::Borrow<D> for Fee<D> {
    fn borrow(&self) -> &D
        returns
            &self.inner(),
    {
        self.as_inner_ref()
    }
}

impl<N: Unsigned, D: Unsigned> Fee<CeilDiv<Ratio<N, D>>> where Ratio<N, D>: ArithTypes {
    /// The fee of nothing, `0 / 1`.
    pub fn zero() -> (fee: Self)
        ensures
            fee.fraction() == (Fraction { n: 0, d: 1 }),
    {
        proof {
            D::lemma_limit_in_range();
        }
        Self(CeilDiv(Ratio { n: N::narrow(0), d: D::narrow(1) }))
    }

    /// The fee of everything, `1 / 1`.
    pub fn one() -> (fee: Self)
        ensures
            fee.fraction() == (Fraction { n: 1, d: 1 }),
    {
        Self(CeilDiv(Ratio::one()))
    }

    /// The fee of ratio `fee_ratio`, rounded up.
    ///
    /// There is none where the ratio exceeds one, and none where its
    /// denominator is zero: a fee of nothing has the numerator zero, so
    /// that it is written in one way only.
    pub fn new(fee_ratio: Ratio<N, D>) -> (fee: Option<Self>)
        ensures
            match fee {
                Some(f) => fee_ratio@.is_fee() && f.inner() == CeilDiv(fee_ratio),
                None => !fee_ratio@.is_fee(),
            },
    {
        if fee_ratio.d.widen() == 0 || fee_ratio.n.widen() > fee_ratio.d.widen() {
            None
        } else {
            Some(Self(CeilDiv(fee_ratio)))
        }
    }

    /// The fee of ratio `fee_ratio`, rounded up, for a caller that knows
    /// the ratio to be at most one, with a denominator that is not zero.
    pub fn new_unchecked(fee_ratio: Ratio<N, D>) -> (fee: Self)
        requires
            fee_ratio@.is_fee(),
        ensures
            fee.inner() == CeilDiv(fee_ratio),
    {
        Self(CeilDiv(fee_ratio))
    }

    /// Splits `amount` into the fee, which is `amount` times the ratio
    /// rounded up, and what remains. As the ratio is at most one, there is
    /// always a split.
    pub fn apply(&self, amount: u64) -> (split: Option<AftFee>)
        ensures
            split matches Some(s) && s.rem() + s.fee() == amount && s.fee()
                == self.fraction().ceil_apply(amount as nat),
            self.fraction().is_zero() ==> (split matches Some(s) && s.fee() == 0 && s.rem()
                == amount),
            self.fraction().is_one() ==> (split matches Some(s) && s.fee() == amount && s.rem()
                == 0),
    {
        proof {
            use_type_invariant(self);
            lemma_fee_rem_dual(self.0.0@, amount as nat);
            if self.0.0@.is_one() {
                lemma_apply_one(self.0.0@, amount as nat);
            }
        }
        let fee = match self.0.apply(amount) {
            None => return None,
            Some(f) => f,
        };
        BefFee(amount).with_fee(fee)
    }

    /// The range of amounts that [`Self::apply`] splits so that `rem`
    /// remains; nothing where no amount is split so.
    pub fn reverse_from_rem(&self, rem: u64) -> (range: Option<RangeInclusive<u64>>)
        ensures
            returns_bounds(range, self.fraction().ceil_fee_reverse_from_rem(rem as nat)),
            forall|x: u64|
                range_holds(range, x) <==> x - #[trigger] self.fraction().ceil_apply(x as nat)
                    == rem,
    {
        proof {
            use_type_invariant(self);
            let f = self.fraction();
            assert forall|x: u64|
                within(f.ceil_fee_reverse_from_rem(rem as nat), x as nat)
                    <==> x - #[trigger] f.ceil_apply(x as nat) == rem by {
                lemma_ceil_fee_reverse_from_rem_exact(f, rem, x);
            }
        }
        if self.0.0.is_zero() {
            Some(RangeInclusive::new(rem, rem))
        } else {
            Floor(self.one_minus_fee_ratio()).reverse(rem)
        }
    }

    /// The range of amounts that [`Self::apply`] splits so that the fee is
    /// `fee`; nothing where no amount is split so.
    pub fn reverse_from_fee(&self, fee: u64) -> (range: Option<RangeInclusive<u64>>)
        ensures
            returns_bounds(range, self.fraction().ceil_fee_reverse_from_fee(fee as nat)),
            forall|x: u64|
                range_holds(range, x) <==> #[trigger] self.fraction().ceil_apply(x as nat)
                    == fee,
    {
        proof {
            let f = self.fraction();
            assert forall|x: u64|
                within(f.ceil_fee_reverse_from_fee(fee as nat), x as nat)
                    <==> #[trigger] f.ceil_apply(x as nat) == fee by {
                lemma_ceil_fee_reverse_from_fee_exact(f, fee, x);
            }
        }
        if self.0.0.is_one() {
            Some(RangeInclusive::new(fee, fee))
        } else {
            self.0.reverse(fee)
        }
    }

    /// One less the fee's ratio, in the wider of the ratio's two types.
    pub fn one_minus_fee_ratio(&self) -> (rest: Ratio<
        <Ratio<N, D> as ArithTypes>::Max,
        <Ratio<N, D> as ArithTypes>::Max,
    >)
        ensures
            rest@ == self.fraction().one_minus(),
    {
        let ratio = self.0.0;
        if ratio.is_zero() {
            return Ratio::one();
        }
        let d = ratio.d.widen();
        let n = ratio.n.widen();
        proof {
            use_type_invariant(self);
            ratio.lemma_max_holds_both();
        }
        Ratio {
            n: <Ratio<N, D> as ArithTypes>::Max::narrow(d - n),
            d: <Ratio<N, D> as ArithTypes>::Max::narrow(d),
        }
    }
}

impl<N: Unsigned, D: Unsigned> Fee<Floor<Ratio<N, D>>> where Ratio<N, D>: ArithTypes {
    /// The fee of nothing, `0 / 1`.
    pub fn zero() -> (fee: Self)
        ensures
            fee.fraction() == (Fraction { n: 0, d: 1 }),
    {
        proof {
            D::lemma_limit_in_range();
        }
        Self(Floor(Ratio { n: N::narrow(0), d: D::narrow(1) }))
    }

    /// The fee of everything, `1 / 1`.
    pub fn one() -> (fee: Self)
        ensures
            fee.fraction() == (Fraction { n: 1, d: 1 }),
    {
        Self(Floor(Ratio::one()))
    }

    /// The fee of ratio `fee_ratio`, rounded down.
    ///
    /// There is none where the ratio exceeds one, and none where its
    /// denominator is zero: a fee of nothing has the numerator zero, so
    /// that it is written in one way only.
    pub fn new(fee_ratio: Ratio<N, D>) -> (fee: Option<Self>)
        ensures
            match fee {
                Some(f) => fee_ratio@.is_fee() && f.inner() == Floor(fee_ratio),
                None => !fee_ratio@.is_fee(),
            },
    {
        if fee_ratio.d.widen() == 0 || fee_ratio.n.widen() > fee_ratio.d.widen() {
            None
        } else {
            Some(Self(Floor(fee_ratio)))
        }
    }

    /// The fee of ratio `fee_ratio`, rounded down, for a caller that knows
    /// the ratio to be at most one, with a denominator that is not zero.
    pub fn new_unchecked(fee_ratio: Ratio<N, D>) -> (fee: Self)
        requires
            fee_ratio@.is_fee(),
        ensures
            fee.inner() == Floor(fee_ratio),
    {
        Self(Floor(fee_ratio))
    }

    /// Splits `amount` into the fee, which is `amount` times the ratio
    /// rounded down, and what remains. As the ratio is at most one, there is
    /// always a split.
    pub fn apply(&self, amount: u64) -> (split: Option<AftFee>)
        ensures
            split matches Some(s) && s.rem() + s.fee() == amount && s.fee()
                == self.fraction().floor_apply(amount as nat),
            self.fraction().is_zero() ==> (split matches Some(s) && s.fee() == 0 && s.rem()
                == amount),
            self.fraction().is_one() ==> (split matches Some(s) && s.fee() == amount && s.rem()
                == 0),
    {
        proof {
            use_type_invariant(self);
            lemma_fee_rem_dual(self.0.0@, amount as nat);
            if self.0.0@.is_one() {
                lemma_apply_one(self.0.0@, amount as nat);
            }
        }
        let fee = match self.0.apply(amount) {
            None => return None,
            Some(f) => f,
        };
        BefFee(amount).with_fee(fee)
    }

    /// The range of amounts that [`Self::apply`] splits so that `rem`
    /// remains; nothing where no amount is split so.
    pub fn reverse_from_rem(&self, rem: u64) -> (range: Option<RangeInclusive<u64>>)
        ensures
            returns_bounds(range, self.fraction().floor_fee_reverse_from_rem(rem as nat)),
            forall|x: u64|
                range_holds(range, x) <==> x - #[trigger] self.fraction().floor_apply(x as nat)
                    == rem,
    {
        proof {
            use_type_invariant(self);
            let f = self.fraction();
            assert forall|x: u64|
                within(f.floor_fee_reverse_from_rem(rem as nat), x as nat)
                    <==> x - #[trigger] f.floor_apply(x as nat) == rem by {
                lemma_floor_fee_reverse_from_rem_exact(f, rem, x);
            }
        }
        if self.0.0.is_zero() {
            Some(RangeInclusive::new(rem, rem))
        } else {
            CeilDiv(self.one_minus_fee_ratio()).reverse(rem)
        }
    }

    /// The range of amounts that [`Self::apply`] splits so that the fee is
    /// `fee`; nothing where no amount is split so.
    pub fn reverse_from_fee(&self, fee: u64) -> (range: Option<RangeInclusive<u64>>)
        ensures
            returns_bounds(range, self.fraction().floor_fee_reverse_from_fee(fee as nat)),
            forall|x: u64|
                range_holds(range, x) <==> #[trigger] self.fraction().floor_apply(x as nat)
                    == fee,
    {
        proof {
            let f = self.fraction();
            assert forall|x: u64|
                within(f.floor_fee_reverse_from_fee(fee as nat), x as nat)
                    <==> #[trigger] f.floor_apply(x as nat) == fee by {
                lemma_floor_fee_reverse_from_fee_exact(f, fee, x);
            }
        }
        if self.0.0.is_one() {
            Some(RangeInclusive::new(fee, fee))
        } else {
            self.0.reverse(fee)
        }
    }

    /// One less the fee's ratio, in the wider of the ratio's two types.
    pub fn one_minus_fee_ratio(&self) -> (rest: Ratio<
        <Ratio<N, D> as ArithTypes>::Max,
        <Ratio<N, D> as ArithTypes>::Max,
    >)
        ensures
            rest@ == self.fraction().one_minus(),
    {
        let ratio = self.0.0;
        if ratio.is_zero() {
            return Ratio::one();
        }
        let d = ratio.d.widen();
        let n = ratio.n.widen();
        proof {
            use_type_invariant(self);
            ratio.lemma_max_holds_both();
        }
        Ratio {
            n: <Ratio<N, D> as ArithTypes>::Max::narrow(d - n),
            d: <Ratio<N, D> as ArithTypes>::Max::narrow(d),
        }
    }
}


} // verus!
