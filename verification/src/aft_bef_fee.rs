//! An amount before a fee is levied, and its split into the fee and what
//! remains.

use vstd::prelude::*;

verus! {

/// What remains of an amount after a fee was levied, and the fee.
///
/// The two always add up to the amount before the fee, a `u64`. The fields
/// are private so that nothing can break this. Use [`BefFee`] to build one.
#[derive(Debug, Copy, Clone, Eq, PartialEq, Structural, PartialOrd, Ord, Hash)]
pub struct AftFee {
    rem: u64,
    fee: u64,
}

impl AftFee {
    #[verifier::type_invariant]
    spec fn sum_fits(self) -> bool {
        self.rem + self.fee <= u64::MAX
    }

    /// The amount that remains after the fee.
    pub closed spec fn spec_rem(&self) -> u64 {
        self.rem
    }

    /// The fee.
    pub closed spec fn spec_fee(&self) -> u64 {
        self.fee
    }

    /// The amount before the fee: the two added up.
    pub open spec fn spec_bef_fee(&self) -> nat {
        (self.spec_rem() + self.spec_fee()) as nat
    }

    /// A split is what its two amounts are.
    pub proof fn lemma_same_amounts_same_split(self, other: Self)
        requires
            self.spec_rem() == other.spec_rem(),
            self.spec_fee() == other.spec_fee(),
        ensures
            self == other,
    {
    }

    /// The amount that remains after the fee was levied.
    #[verifier::when_used_as_spec(spec_rem)]
    pub fn rem(&self) -> (rem: u64)
        ensures
            rem == self.spec_rem(),
    {
        self.rem
    }

    /// The fee that was levied.
    #[verifier::when_used_as_spec(spec_fee)]
    pub fn fee(&self) -> (fee: u64)
        ensures
            fee == self.spec_fee(),
    {
        self.fee
    }

    /// The amount before the fee was levied: `self.rem() + self.fee()`.
    pub fn bef_fee(&self) -> (amount: u64)
        ensures
            amount == self.spec_bef_fee(),
    {
        proof {
            use_type_invariant(self);
        }
        self.rem + self.fee
    }

    /// The split into `rem` and `fee`, for a caller that knows that the two
    /// add up to no more than a `u64` holds.
    pub fn new_unchecked(rem: u64, fee: u64) -> (split: Self)
        requires
            rem + fee <= u64::MAX,
        ensures
            split.rem() == rem,
            split.fee() == fee,
    {
        Self { rem, fee }
    }
}

impl Default for AftFee {
    /// Nothing remains and nothing was levied.
    fn default() -> (split: Self)
        ensures
            split.rem() == 0,
            split.fee() == 0,
    {
        Self { rem: 0, fee: 0 }
    }
}

/// An amount before a fee is levied.
#[derive(Debug, Copy, Clone, Eq, PartialEq, Structural, PartialOrd, Ord, Hash)]
pub struct BefFee(pub u64);

impl BefFee {
    /// The split of the amount into `fee` and what remains; nothing where
    /// `fee` exceeds the amount.
    pub fn with_fee(self, fee: u64) -> (split: Option<AftFee>)
        ensures
            match split {
                Some(s) => fee <= self.0 && s.fee() == fee && s.rem() == self.0 - fee,
                None => fee > self.0,
            },
    {
        let rem = match self.0.checked_sub(fee) {
            None => return None,
            Some(r) => r,
        };
        Some(AftFee { rem, fee })
    }

    /// The split of the amount into `rem` and the fee that leaves it;
    /// nothing where `rem` exceeds the amount.
    pub fn with_rem(self, rem: u64) -> (split: Option<AftFee>)
        ensures
            match split {
                Some(s) => rem <= self.0 && s.rem() == rem && s.fee() == self.0 - rem,
                None => rem > self.0,
            },
    {
        let fee = match self.0.checked_sub(rem) {
            None => return None,
            Some(r) => r,
        };
        Some(AftFee { rem, fee })
    }
}

impl Default for BefFee {
    /// The amount zero.
    fn default() -> (amount: Self)
        ensures
            amount.0 == 0,
    {
        Self(0)
    }
}

} // verus!
