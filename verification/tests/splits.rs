use fee_ratio::{AfterFee, AfterFeeBuilder, AftFee, BefFee};

const MAX: u64 = u64::MAX;

#[test]
fn with_fee_subtracts_the_fee() {
    let split = BefFee(10).with_fee(4).unwrap();
    assert_eq!((split.rem(), split.fee(), split.bef_fee()), (6, 4, 10));
    let split = BefFee(10).with_fee(0).unwrap();
    assert_eq!((split.rem(), split.fee(), split.bef_fee()), (10, 0, 10));
    let split = BefFee(MAX).with_fee(MAX).unwrap();
    assert_eq!((split.rem(), split.fee(), split.bef_fee()), (0, MAX, MAX));
}

#[test]
fn with_rem_subtracts_what_remains() {
    let split = BefFee(10).with_rem(4).unwrap();
    assert_eq!((split.rem(), split.fee(), split.bef_fee()), (4, 6, 10));
    let split = BefFee(MAX).with_rem(1).unwrap();
    assert_eq!((split.rem(), split.fee(), split.bef_fee()), (1, MAX - 1, MAX));
    let split = BefFee(0).with_rem(0).unwrap();
    assert_eq!((split.rem(), split.fee(), split.bef_fee()), (0, 0, 0));
}

#[test]
fn aft_bef_fee_invariant() {
    for bef_fee in [0, 1, 2, 1000, MAX - 1, MAX] {
        for sample in [0, bef_fee / 3, bef_fee / 2, bef_fee.saturating_sub(1), bef_fee] {
            let bef = BefFee(bef_fee);
            for a in [bef.with_fee(sample).unwrap(), bef.with_rem(sample).unwrap()] {
                assert_eq!(a.fee() + a.rem(), a.bef_fee());
                assert_eq!(a.bef_fee(), bef_fee);
            }
        }
    }
}

#[test]
fn out_of_range_none() {
    for bef_fee in [0, 1, 2, 1000, MAX - 1] {
        for oor in [bef_fee + 1, bef_fee / 2 + MAX / 2 + 1, MAX] {
            let bef = BefFee(bef_fee);
            for opt in [bef.with_fee(oor), bef.with_rem(oor)] {
                assert!(opt.is_none());
            }
        }
    }
}

#[test]
fn a_split_taken_on_trust() {
    let split = AftFee::new_unchecked(6, 4);
    assert_eq!((split.rem(), split.fee(), split.bef_fee()), (6, 4, 10));
    assert_eq!(split, BefFee(10).with_fee(4).unwrap());
    let split = AftFee::new_unchecked(MAX, 0);
    assert_eq!(split.bef_fee(), MAX);
}

#[test]
fn splits_are_equal_by_their_amounts() {
    assert_eq!(BefFee(10).with_fee(4), BefFee(10).with_rem(6));
    assert_ne!(BefFee(10).with_fee(4), BefFee(10).with_rem(4));
    assert_ne!(BefFee(10).with_fee(4), BefFee(11).with_fee(4));
    assert_eq!(BefFee(10), BefFee(10));
    assert!(BefFee(9) < BefFee(10));
}

#[test]
fn default_splits_are_of_nothing() {
    let split = AftFee::default();
    assert_eq!((split.rem(), split.fee(), split.bef_fee()), (0, 0, 0));
    assert_eq!(BefFee::default().0, 0);
    let split = AfterFee::default();
    assert_eq!((split.rem(), split.fee(), split.before_fee()), (0, 0, 0));
    assert_eq!(AfterFeeBuilder::default().before_fee(), 0);
}

#[test]
fn the_builder_holds_the_amount() {
    assert_eq!(AfterFeeBuilder::new(0).before_fee(), 0);
    assert_eq!(AfterFeeBuilder::new(77).before_fee(), 77);
    assert_eq!(AfterFeeBuilder::new(MAX).before_fee(), MAX);
}

#[test]
fn the_builder_subtracts_the_fee() {
    let split = AfterFeeBuilder::new(10).with_fee(4).unwrap();
    assert_eq!((split.rem(), split.fee(), split.before_fee()), (6, 4, 10));
    let split = AfterFeeBuilder::new(MAX).with_fee(MAX).unwrap();
    assert_eq!((split.rem(), split.fee(), split.before_fee()), (0, MAX, MAX));
    assert!(AfterFeeBuilder::new(10).with_fee(11).is_none());
    assert!(AfterFeeBuilder::new(0).with_fee(MAX).is_none());
}

#[test]
fn the_builder_subtracts_what_remains() {
    let split = AfterFeeBuilder::new(10).with_rem(4).unwrap();
    assert_eq!((split.rem(), split.fee(), split.before_fee()), (4, 6, 10));
    let split = AfterFeeBuilder::new(MAX).with_rem(0).unwrap();
    assert_eq!((split.rem(), split.fee(), split.before_fee()), (0, MAX, MAX));
    assert!(AfterFeeBuilder::new(10).with_rem(11).is_none());
    assert!(AfterFeeBuilder::new(MAX - 1).with_rem(MAX).is_none());
}

#[test]
fn the_builder_subtracts_with_a_check() {
    assert_eq!(AfterFeeBuilder::new(10).checked_sub(4), Some(6));
    assert_eq!(AfterFeeBuilder::new(10).checked_sub(10), Some(0));
    assert_eq!(AfterFeeBuilder::new(10).checked_sub(11), None);
    assert_eq!(AfterFeeBuilder::new(0).checked_sub(MAX), None);
}

#[test]
fn builder_splits_are_equal_by_their_amounts() {
    assert_eq!(AfterFeeBuilder::new(10).with_fee(4), AfterFeeBuilder::new(10).with_rem(6));
    assert_ne!(AfterFeeBuilder::new(10).with_fee(4), AfterFeeBuilder::new(10).with_rem(4));
    assert_eq!(AfterFeeBuilder::new(10), AfterFeeBuilder::new(10));
}
