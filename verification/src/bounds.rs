//! Closed ranges of amounts, as reversal returns them.

use vstd::prelude::*;
use core::ops::RangeInclusive;

verus! {

/// The closed range `start ..= end` of natural numbers; empty where
/// `start > end`.
pub struct Bounds {
    pub start: nat,
    pub end: nat,
}

impl Bounds {
    /// Whether `x` lies in the range.
    pub open spec fn contains(self, x: nat) -> bool {
        self.start <= x <= self.end
    }

    /// The range that holds every `u64`.
    pub open spec fn full() -> Bounds {
        Bounds { start: 0, end: u64::MAX as nat }
    }

    /// The range that holds `x` alone.
    pub open spec fn only(x: nat) -> Bounds {
        Bounds { start: x, end: x }
    }
}

/// Whether there are bounds and `x` lies within them.
pub open spec fn within(bounds: Option<Bounds>, x: nat) -> bool {
    bounds matches Some(b) && b.contains(x)
}

/// Whether a range was handed back and holds `x`.
pub open spec fn range_holds(returned: Option<RangeInclusive<u64>>, x: u64) -> bool {
    returned matches Some(range) && range@.start <= x <= range@.end
}

/// What a reversal hands back for the bounds it computed: the unconsumed
/// range from `start` to `end`, or nothing where there are no bounds.
pub open spec fn returns_bounds(
    returned: Option<RangeInclusive<u64>>,
    bounds: Option<Bounds>,
) -> bool {
    match bounds {
        Some(b) => returned matches Some(range) && range@.start == b.start && range@.end == b.end
            && !range@.exhausted,
        None => returned is None,
    }
}

} // verus!
