//! The unsigned machine integers that a ratio's numerator and denominator
//! may be made of.

use vstd::prelude::*;

verus! {

/// An unsigned integer type of at least 8 and at most 64 bits.
///
/// Generic code reads a value through [`Unsigned::widen`] and reasons about
/// it through [`Unsigned::value`], so that one implementation and one proof
/// serve every width.
pub trait Unsigned: Copy + Sized {
    /// The largest value of the type.
    spec fn limit() -> nat;

    /// The number that `self` stands for.
    spec fn value(self) -> nat;

    /// The type holds every `u8` and nothing that a `u64` does not hold.
    proof fn lemma_limit_in_range()
        ensures
            u8::MAX <= Self::limit() <= u64::MAX,
    ;

    /// Every value lies within the type's range.
    proof fn lemma_value_in_range(self)
        ensures
            self.value() <= Self::limit() <= u64::MAX,
    ;

    /// Two values that stand for the same number are the same value.
    proof fn lemma_value_injective(self, other: Self)
        requires
            self.value() == other.value(),
        ensures
            self == other,
    ;

    /// The value as a `u64`.
    fn widen(self) -> (wide: u64)
        ensures
            wide == self.value(),
    ;

    /// The value of this type that stands for `wide`.
    fn narrow(wide: u64) -> (narrowed: Self)
        requires
            wide <= Self::limit(),
        ensures
            narrowed.value() == wide,
    ;
}

impl Unsigned for u8 {
    open spec fn limit() -> nat {
        0xff
    }

    open spec fn value(self) -> nat {
        self as nat
    }

    proof fn lemma_limit_in_range() {
    }

    proof fn lemma_value_in_range(self) {
    }

    proof fn lemma_value_injective(self, other: Self) {
    }

    fn widen(self) -> u64 {
        self as u64
    }

    fn narrow(wide: u64) -> u8 {
        wide as u8
    }
}

impl Unsigned for u16 {
    open spec fn limit() -> nat {
        0xffff
    }

    open spec fn value(self) -> nat {
        self as nat
    }

    proof fn lemma_limit_in_range() {
    }

    proof fn lemma_value_in_range(self) {
    }

    proof fn lemma_value_injective(self, other: Self) {
    }

    fn widen(self) -> u64 {
        self as u64
    }

    fn narrow(wide: u64) -> u16 {
        wide as u16
    }
}

impl Unsigned for u32 {
    open spec fn limit() -> nat {
        0xffff_ffff
    }

    open spec fn value(self) -> nat {
        self as nat
    }

    proof fn lemma_limit_in_range() {
    }

    proof fn lemma_value_in_range(self) {
    }

    proof fn lemma_value_injective(self, other: Self) {
    }

    fn widen(self) -> u64 {
        self as u64
    }

    fn narrow(wide: u64) -> u32 {
        wide as u32
    }
}

impl Unsigned for u64 {
    open spec fn limit() -> nat {
        0xffff_ffff_ffff_ffff
    }

    open spec fn value(self) -> nat {
        self as nat
    }

    proof fn lemma_limit_in_range() {
    }

    proof fn lemma_value_in_range(self) {
    }

    proof fn lemma_value_injective(self, other: Self) {
    }

    fn widen(self) -> u64 {
        self
    }

    fn narrow(wide: u64) -> u64 {
        wide
    }
}

} // verus!
