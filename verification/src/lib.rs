//! Exact application of rational ratios to `u64` amounts, with floor or
//! ceiling rounding, the exact range of amounts behind a given result, and
//! fees that split an amount into a remainder and a fee.
//!
//! A [`Ratio`] is a numerator and a denominator, each of an unsigned type
//! of its own width. [`Floor`] and [`CeilDiv`] apply a ratio to an amount,
//! rounding down or up, and reverse a result into the range of amounts
//! that give it. A [`Fee`] is such a rounded ratio of at most one; it
//! splits an amount into an [`AftFee`].
//!
//! Contracts speak of a ratio by the [`Fraction`] it stands for, and of a
//! range by its [`Bounds`].

pub mod aft_bef_fee;
pub mod amts_after_fee;
pub mod bounds;
pub mod ceil;
pub mod fee;
pub mod floor;
pub mod gcd;
pub mod order;
pub mod ratio;
pub mod rounding;
pub mod unsigned;
pub mod utils;

pub use aft_bef_fee::{AftFee, BefFee};
pub use amts_after_fee::{AfterFee, AfterFeeBuilder};
pub use bounds::Bounds;
pub use ceil::CeilDiv;
pub use fee::{Fee, Rounded};
pub use floor::Floor;
pub use ratio::{ArithTypes, Fraction, Ratio};
pub use unsigned::Unsigned;
pub use utils::u128_to_u64_checked;
