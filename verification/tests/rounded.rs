use fee_ratio::rounding::{div_ceil, mul_wide};
use fee_ratio::utils::u128_to_u64_saturating;
use fee_ratio::{u128_to_u64_checked, CeilDiv, Floor, Ratio};

const MAX: u64 = u64::MAX;

#[test]
fn narrowing_fails_above_64_bits() {
    assert_eq!(u128_to_u64_checked(0), Some(0));
    assert_eq!(u128_to_u64_checked(MAX as u128), Some(MAX));
    assert_eq!(u128_to_u64_checked(MAX as u128 + 1), None);
    assert_eq!(u128_to_u64_checked(u128::MAX), None);
}

#[test]
fn saturating_narrowing_stops_at_the_largest() {
    assert_eq!(u128_to_u64_saturating(0), 0);
    assert_eq!(u128_to_u64_saturating(MAX as u128), MAX);
    assert_eq!(u128_to_u64_saturating(MAX as u128 + 1), MAX);
    assert_eq!(u128_to_u64_saturating(u128::MAX), MAX);
}

#[test]
fn wide_product_is_exact() {
    assert_eq!(mul_wide(0, MAX), 0);
    assert_eq!(mul_wide(3, 4), 12);
    assert_eq!(mul_wide(MAX, MAX), 340282366920938463426481119284349108225);
}

#[test]
fn ceiling_division_bumps_on_a_remainder() {
    assert_eq!(div_ceil(0, 3), 0);
    assert_eq!(div_ceil(9, 3), 3);
    assert_eq!(div_ceil(10, 3), 4);
    assert_eq!(div_ceil(11, 3), 4);
    assert_eq!(div_ceil(u128::MAX, 1), u128::MAX);
    assert_eq!(div_ceil(u128::MAX, MAX), (1u128 << 64) + 1);
}

#[test]
fn floor_apply_rounds_down() {
    let third = Floor(Ratio::<u8, u8>::new(1, 3));
    assert_eq!(third.apply(0), Some(0));
    assert_eq!(third.apply(2), Some(0));
    assert_eq!(third.apply(9), Some(3));
    assert_eq!(third.apply(10), Some(3));
    assert_eq!(third.apply(11), Some(3));
    assert_eq!(third.apply(12), Some(4));
    assert_eq!(Floor(Ratio::<u16, u8>::new(3, 2)).apply(5), Some(7));
}

#[test]
fn ceil_apply_rounds_up() {
    let third = CeilDiv(Ratio::<u8, u8>::new(1, 3));
    assert_eq!(third.apply(0), Some(0));
    assert_eq!(third.apply(1), Some(1));
    assert_eq!(third.apply(9), Some(3));
    assert_eq!(third.apply(10), Some(4));
    assert_eq!(third.apply(12), Some(4));
    assert_eq!(third.apply(13), Some(5));
    assert_eq!(CeilDiv(Ratio::<u16, u8>::new(3, 2)).apply(5), Some(8));
}

#[test]
fn zero_ratio_applies_to_zero() {
    for amount in [0, 1, 12345, MAX] {
        assert_eq!(Floor(Ratio::<u64, u8>::new(0, 9)).apply(amount), Some(0));
        assert_eq!(Floor(Ratio::<u64, u8>::new(MAX, 0)).apply(amount), Some(0));
        assert_eq!(CeilDiv(Ratio::<u64, u8>::new(0, 9)).apply(amount), Some(0));
        assert_eq!(CeilDiv(Ratio::<u64, u8>::new(MAX, 0)).apply(amount), Some(0));
    }
}

#[test]
fn apply_fails_exactly_when_the_result_exceeds_64_bits() {
    let double = Ratio::<u8, u8>::new(2, 1);
    assert_eq!(Floor(double).apply(MAX / 2), Some(MAX - 1));
    assert_eq!(Floor(double).apply(MAX / 2 + 1), None);
    assert_eq!(CeilDiv(double).apply(MAX / 2), Some(MAX - 1));
    assert_eq!(CeilDiv(double).apply(MAX / 2 + 1), None);

    let most = Ratio::<u64, u64>::new(MAX, 1);
    assert_eq!(Floor(most).apply(1), Some(MAX));
    assert_eq!(Floor(most).apply(2), None);
    assert_eq!(Floor(most).apply(MAX), None);

    // 3/2 of MAX - 1 rounds down into range and up out of it
    let r = Ratio::<u8, u8>::new(3, 2);
    let x = 12297829382473034410u64;
    assert_eq!(Floor(r).apply(x), Some(MAX));
    assert_eq!(CeilDiv(r).apply(x), Some(MAX));
    assert_eq!(Floor(r).apply(x + 1), None);
    let y = 12297829382473034409u64;
    assert_eq!(Floor(r).apply(y), Some(MAX - 2));
    assert_eq!(CeilDiv(r).apply(y), Some(MAX - 1));
}

#[test]
fn apply_at_the_largest_values_of_every_width() {
    assert_eq!(Floor(Ratio::<u64, u64>::new(MAX, MAX)).apply(MAX), Some(MAX));
    assert_eq!(CeilDiv(Ratio::<u64, u64>::new(MAX, MAX)).apply(MAX), Some(MAX));
    assert_eq!(Floor(Ratio::<u64, u64>::new(MAX - 1, MAX)).apply(MAX), Some(MAX - 1));
    assert_eq!(CeilDiv(Ratio::<u64, u64>::new(MAX - 1, MAX)).apply(MAX), Some(MAX - 1));
    assert_eq!(Floor(Ratio::<u64, u64>::new(MAX - 1, MAX)).apply(MAX - 1), Some(MAX - 2));
    assert_eq!(CeilDiv(Ratio::<u64, u64>::new(MAX - 1, MAX)).apply(MAX - 1), Some(MAX - 1));
    assert_eq!(Floor(Ratio::<u8, u32>::new(255, u32::MAX)).apply(MAX), Some(1095216660735));
    assert_eq!(CeilDiv(Ratio::<u8, u32>::new(255, u32::MAX)).apply(MAX), Some(1095216660735));
}

#[test]
fn reversing_a_zero_ratio() {
    for zero in [Ratio::<u16, u32>::new(0, 5), Ratio::new(5, 0), Ratio::new(0, 0)] {
        assert_eq!(Floor(zero).reverse(0), Some(0..=MAX));
        assert_eq!(CeilDiv(zero).reverse(0), Some(0..=MAX));
        for y in [1, 2, MAX] {
            assert_eq!(Floor(zero).reverse(y), None);
            assert_eq!(CeilDiv(zero).reverse(y), None);
        }
    }
}

#[test]
fn ceil_reverse_of_zero_is_zero_alone() {
    assert_eq!(CeilDiv(Ratio::<u8, u8>::new(1, 3)).reverse(0), Some(0..=0));
    assert_eq!(CeilDiv(Ratio::<u8, u8>::new(3, 1)).reverse(0), Some(0..=0));
    assert_eq!(CeilDiv(Ratio::<u64, u64>::new(1, MAX)).reverse(0), Some(0..=0));
    assert_eq!(CeilDiv(Ratio::<u64, u64>::new(MAX, 1)).reverse(0), Some(0..=0));
}

#[test]
fn floor_reverse_exact_values() {
    assert_eq!(Floor(Ratio::<u8, u8>::new(1, 3)).reverse(3), Some(9..=11));
    assert_eq!(Floor(Ratio::<u8, u8>::new(1, 4)).reverse(0), Some(0..=3));
    assert_eq!(Floor(Ratio::<u8, u8>::new(2, 3)).reverse(6), Some(9..=10));
    assert_eq!(Floor(Ratio::<u8, u8>::new(3, 2)).reverse(4), Some(3..=3));
    assert_eq!(Floor(Ratio::<u8, u8>::new(7, 255)).reverse(0), Some(0..=36));
    assert_eq!(Floor(Ratio::<u8, u8>::new(1, 1)).reverse(77), Some(77..=77));
}

#[test]
fn ceil_reverse_exact_values() {
    assert_eq!(CeilDiv(Ratio::<u8, u8>::new(1, 3)).reverse(4), Some(10..=12));
    assert_eq!(CeilDiv(Ratio::<u8, u8>::new(2, 3)).reverse(7), Some(10..=10));
    assert_eq!(CeilDiv(Ratio::<u8, u8>::new(3, 2)).reverse(5), Some(3..=3));
    assert_eq!(CeilDiv(Ratio::<u8, u8>::new(1, 1)).reverse(77), Some(77..=77));
    assert_eq!(CeilDiv(Ratio::<u8, u8>::new(1, 255)).reverse(1), Some(1..=255));
}

#[test]
fn reverse_of_an_unreachable_result_is_an_empty_range() {
    // twice an amount is never 1 rounded down, nor 3 rounded up
    let range = Floor(Ratio::<u8, u8>::new(2, 1)).reverse(1).unwrap();
    assert_eq!((*range.start(), *range.end()), (1, 0));
    assert!(range.is_empty());
    let range = CeilDiv(Ratio::<u8, u8>::new(2, 1)).reverse(3).unwrap();
    assert_eq!((*range.start(), *range.end()), (2, 1));
    assert!(range.is_empty());
    let range = CeilDiv(Ratio::<u8, u8>::new(3, 2)).reverse(4).unwrap();
    assert_eq!((*range.start(), *range.end()), (3, 2));
}

#[test]
fn reverse_cuts_the_upper_bound_at_the_largest_amount() {
    let tiny = Ratio::<u64, u64>::new(1, MAX);
    assert_eq!(Floor(tiny).reverse(1), Some(MAX..=MAX));
    assert_eq!(CeilDiv(tiny).reverse(1), Some(1..=MAX));
    assert_eq!(Floor(Ratio::<u8, u8>::new(1, 2)).reverse(MAX / 2), Some(MAX - 1..=MAX));
    assert_eq!(CeilDiv(Ratio::<u8, u8>::new(1, 2)).reverse(MAX / 2 + 1), Some(MAX..=MAX));
}

#[test]
fn reverse_fails_where_the_lower_bound_exceeds_64_bits() {
    let tiny = Ratio::<u64, u64>::new(1, MAX);
    assert_eq!(Floor(tiny).reverse(2), None);
    assert_eq!(CeilDiv(tiny).reverse(2), None);
    assert_eq!(CeilDiv(tiny).reverse(3), None);
    assert_eq!(Floor(Ratio::<u8, u8>::new(3, 4)).reverse(MAX), None);
    assert_eq!(CeilDiv(Ratio::<u8, u8>::new(3, 4)).reverse(MAX), None);
    assert_eq!(Floor(Ratio::<u8, u8>::new(1, 2)).reverse(MAX / 2 + 1), None);
    assert_eq!(CeilDiv(Ratio::<u8, u8>::new(1, 2)).reverse(MAX / 2 + 2), None);
}

#[test]
fn reverse_at_the_top_of_the_range() {
    let r = Ratio::<u8, u8>::new(4, 3);
    assert_eq!(
        Floor(r).reverse(MAX),
        Some(13835058055282163712..=13835058055282163711),
    );
    assert_eq!(
        CeilDiv(r).reverse(MAX),
        Some(13835058055282163711..=13835058055282163711),
    );
    assert_eq!(CeilDiv(r).apply(13835058055282163711), Some(MAX));
    assert_eq!(CeilDiv(r).apply(13835058055282163712), None);
}

#[test]
fn reverse_holds_exactly_the_amounts_that_apply_takes_there() {
    for n in 0..=9u8 {
        for d in 0..=9u16 {
            let r = Ratio::<u8, u16>::new(n, d);
            for y in 0..=40u64 {
                let floor = Floor(r).reverse(y);
                let ceil = CeilDiv(r).reverse(y);
                for x in 0..=90u64 {
                    let in_floor = floor.as_ref().is_some_and(|range| range.contains(&x));
                    let in_ceil = ceil.as_ref().is_some_and(|range| range.contains(&x));
                    assert_eq!(Floor(r).apply(x) == Some(y), in_floor, "floor {n}/{d} {x} {y}");
                    assert_eq!(CeilDiv(r).apply(x) == Some(y), in_ceil, "ceil {n}/{d} {x} {y}");
                }
            }
        }
    }
}

#[test]
fn reverse_of_what_apply_gives_holds_the_amount() {
    let amounts = [0, 1, 2, 999, 1 << 40, MAX / 3, MAX - 1, MAX];
    let ratios: [(u32, u64); 7] =
        [(1, 3), (2, 3), (1, 1), (7, 1000), (u32::MAX, MAX), (1, MAX), (0, 9)];
    for (n, d) in ratios {
        let r = Ratio::<u32, u64>::new(n, d);
        for x in amounts {
            let y = Floor(r).apply(x).unwrap();
            assert!(Floor(r).reverse(y).unwrap().contains(&x), "floor {n}/{d} {x}");
            let y = CeilDiv(r).apply(x).unwrap();
            assert!(CeilDiv(r).reverse(y).unwrap().contains(&x), "ceil {n}/{d} {x}");
        }
    }
}

#[test]
fn amounts_next_to_the_range_are_taken_elsewhere() {
    let ratios: [(u64, u32); 6] = [(1, 3), (2, 3), (5, 4), (7, 1000), (MAX, 3), (1, u32::MAX)];
    for (n, d) in ratios {
        let r = Ratio::<u64, u32>::new(n, d);
        for y in [0, 1, 2, 17, 1 << 33, MAX - 1, MAX] {
            if let Some(range) = Floor(r).reverse(y) {
                let (lo, hi) = (*range.start(), *range.end());
                if lo > 0 {
                    assert_ne!(Floor(r).apply(lo - 1), Some(y), "floor {n}/{d} {y}");
                }
                if hi < MAX {
                    assert_ne!(Floor(r).apply(hi + 1), Some(y), "floor {n}/{d} {y}");
                }
            }
            if let Some(range) = CeilDiv(r).reverse(y) {
                let (lo, hi) = (*range.start(), *range.end());
                if lo > 0 {
                    assert_ne!(CeilDiv(r).apply(lo - 1), Some(y), "ceil {n}/{d} {y}");
                }
                if hi < MAX {
                    assert_ne!(CeilDiv(r).apply(hi + 1), Some(y), "ceil {n}/{d} {y}");
                }
            }
        }
    }
}

#[test]
fn ceil_is_floor_or_one_more() {
    for n in 0..=12u16 {
        for d in 0..=12u8 {
            let r = Ratio::<u16, u8>::new(n, d);
            for x in 0..=60u64 {
                let up = CeilDiv(r).apply(x).unwrap();
                let down = Floor(r).apply(x).unwrap();
                assert!(up == down || up == down + 1, "{n}/{d} {x}");
            }
        }
    }
    let r = Ratio::<u64, u64>::new(MAX - 1, MAX);
    assert_eq!(CeilDiv(r).apply(MAX - 1).unwrap() - Floor(r).apply(MAX - 1).unwrap(), 1);
    assert_eq!(CeilDiv(r).apply(MAX).unwrap() - Floor(r).apply(MAX).unwrap(), 0);
}

#[test]
fn floor_ceil_cmp_u8_u8() {
    // where rounding up has no range for a result, rounding down has one
    // of a single amount, around which rounding up steps over the result
    let r = Ratio::<u8, u8>::new(3, 2);
    let aaf = 4;
    assert_eq!(CeilDiv(r).reverse(aaf).map(|range| range.is_empty()), Some(true));
    let f = Floor(r).reverse(aaf).unwrap();
    assert_eq!(f.start(), f.end());
    assert!(CeilDiv(r).apply(f.start() - 1).unwrap() < aaf);
    assert!(CeilDiv(r).apply(*f.start()).unwrap() != aaf);
    assert!(CeilDiv(r).apply(f.start() + 1).unwrap() > aaf);
    // where both have one, rounding up has the lower bounds
    let r = Ratio::<u8, u8>::new(2, 7);
    for aaf in 0..50 {
        let c = CeilDiv(r).reverse(aaf).unwrap();
        let f = Floor(r).reverse(aaf).unwrap();
        assert!(c.start() <= f.start() && c.end() <= f.end());
    }
}

#[test]
fn wrappers_hold_their_ratio() {
    let r = Ratio::<u8, u8>::new(3, 2);
    let f = Floor::new(r);
    assert_eq!((f.0.n, f.0.d), (3, 2));
    let c = CeilDiv::new(r);
    assert_eq!((c.0.n, c.0.d), (3, 2));
    let copy = c.clone();
    assert!(copy == c);
    assert!(f.clone() == Floor(Ratio::new(6, 4)));
}
