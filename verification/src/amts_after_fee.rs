//! A split of an amount into a fee and what remains, made through a builder
//! that holds the amount.

use vstd::prelude::*;

verus! {

/// What remains of an amount after a fee was levied, and the fee.
///
/// The two always add up to the amount before the fee, a `u64`. The fields
/// are private so that nothing can break this. Use [`AfterFeeBuilder`] to
/// build one.
#[derive(Debug, Copy, Clone, Eq, PartialEq, Structural, PartialOrd, Ord, Hash)]
pub struct AfterFee {
    rem: u64,
    fee: u64,
}

impl AfterFee {
    #[verifier::type_invariant]
    spec fn sum_fits(self) -> bool {
        self.rem + self.fee <= u64::MAX
    }

    /// The amount that remains after the fee.
    pub closed spec fn spec_rem(&self) -> u64 {
        self.rem
    }

    /// The fee.
    pub closed spec fn spec_fee(&self) -> u64 {
        self.fee
    }

    /// The amount before the fee: the two added up.
    pub open spec fn spec_before_fee(&self) -> nat {
        (self.spec_rem() + self.spec_fee()) as nat
    }

    /// A split is what its two amounts are.
    pub proof fn lemma_same_amounts_same_split(self, other: Self)
        requires
            self.spec_rem() == other.spec_rem(),
            self.spec_fee() == other.spec_fee(),
        ensures
            self == other,
    {
    }

    /// The amount that remains after the fee was levied.
    #[verifier::when_used_as_spec(spec_rem)]
    pub fn rem(&self) -> (rem: u64)
        ensures
            rem == self.spec_rem(),
    {
        self.rem
    }

    /// The fee that was levied.
    #[verifier::when_used_as_spec(spec_fee)]
    pub fn fee(&self) -> (fee: u64)
        ensures
            fee == self.spec_fee(),
    {
        self.fee
    }

    /// The amount before the fee was levied: `self.rem() + self.fee()`.
    pub fn before_fee(&self) -> (amount: u64)
        ensures
            amount == self.spec_before_fee(),
    {
        proof {
            use_type_invariant(self);
        }
        self.rem + self.fee
    }
}

impl Default for AfterFee {
    /// Nothing remains and nothing was levied.
    fn default() -> (split: Self)
        ensures
            split.rem() == 0,
            split.fee() == 0,
    {
        Self { rem: 0, fee: 0 }
    }
}

/// An amount before a fee is levied, from which an [`AfterFee`] is built.
#[derive(Debug, Copy, Clone, Eq, PartialEq, Structural, PartialOrd, Ord, Hash)]
pub struct AfterFeeBuilder(u64);

impl AfterFeeBuilder {
    /// The amount that the builder holds.
    pub closed spec fn spec_before_fee(&self) -> u64 {
        self.0
    }

    /// A builder for the amount `amount` before the fee.
    pub fn new(amount: u64) -> (builder: Self)
        ensures
            builder.before_fee() == amount,
    {
        Self(amount)
    }

    /// The amount before the fee that the builder holds.
    #[verifier::when_used_as_spec(spec_before_fee)]
    pub fn before_fee(&self) -> (amount: u64)
        ensures
            amount == self.spec_before_fee(),
    {
        self.0
    }

    /// The split of the amount into `fee` and what remains; nothing where
    /// `fee` exceeds the amount.
    pub fn with_fee(self, fee: u64) -> (split: Option<AfterFee>)
        ensures
            match split {
                Some(s) => fee <= self.before_fee() && s.fee() == fee && s.rem()
                    == self.before_fee() - fee,
                None => fee > self.before_fee(),
            },
    {
        let rem = match self.checked_sub(fee) {
            None => return None,
            Some(r) => r,
        };
        Some(AfterFee { rem, fee })
    }

    /// The split of the amount into `rem` and the fee that leaves it;
    /// nothing where `rem` exceeds the amount.
    pub fn with_rem(self, rem: u64) -> (split: Option<AfterFee>)
        ensures
            match split {
                Some(s) => rem <= self.before_fee() && s.rem() == rem && s.fee()
                    == self.before_fee() - rem,
                None => rem > self.before_fee(),
            },
    {
        let fee = match self.checked_sub(rem) {
            None => return None,
            Some(r) => r,
        };
        Some(AfterFee { rem, fee })
    }

    /// The amount less `amt`, or nothing where `amt` exceeds it.
    pub fn checked_sub(&self, amt: u64) -> (left: Option<u64>)
        ensures
            match left {
                Some(l) => amt <= self.before_fee() && l == self.before_fee() - amt,
                None => amt > self.before_fee(),
            },
    {
        self.0.checked_sub(amt)
    }
}

impl Default for AfterFeeBuilder {
    /// A builder for the amount zero.
    fn default() -> (builder: Self)
        ensures
            builder.before_fee() == 0,
    {
        Self(0)
    }
}

} // verus!
