use coinswap::amounts::{
    build_hop_amounts, split_funding, sum_values, within_tolerance, FeeSchedule,
};

#[test]
fn fee_is_absolute_plus_relative_part() {
    let schedule = FeeSchedule { absolute_fee: 1000, relative_fee_ppb: 10_000_000 };
    // 500000 * 10_000_000 / 1_000_000_000 = 5000
    assert_eq!(schedule.fee(500_000), Some(6000));
    assert_eq!(schedule.fee(0), Some(1000));
    // the relative part is rounded down
    let small = FeeSchedule { absolute_fee: 0, relative_fee_ppb: 1 };
    assert_eq!(small.fee(999_999_999), Some(0));
    assert_eq!(small.fee(1_000_000_000), Some(1));
}

#[test]
fn fee_that_does_not_fit_is_refused() {
    let schedule = FeeSchedule { absolute_fee: u64::MAX, relative_fee_ppb: 1_000_000_000 };
    assert_eq!(schedule.fee(1), None);
    assert_eq!(schedule.fee(0), Some(u64::MAX));
    let steep = FeeSchedule { absolute_fee: 0, relative_fee_ppb: u64::MAX };
    assert_eq!(steep.fee(u64::MAX), None);
}

#[test]
fn hop_amounts_carry_the_fees_of_all_later_hops() {
    let amounts = build_hop_amounts(500_000, &vec![6000, 3000]).unwrap();
    assert_eq!(amounts, vec![509_000, 503_000]);
    assert_eq!(build_hop_amounts(500_000, &vec![]).unwrap(), Vec::<u64>::new());
    assert_eq!(build_hop_amounts(7, &vec![1, 2, 3]).unwrap(), vec![13, 12, 10]);
}

#[test]
fn hop_amounts_that_do_not_fit_are_refused() {
    assert_eq!(build_hop_amounts(u64::MAX, &vec![1]), None);
    assert_eq!(build_hop_amounts(u64::MAX - 3, &vec![1, 2]).unwrap(), vec![u64::MAX, u64::MAX - 1]);
    assert_eq!(build_hop_amounts(u64::MAX - 2, &vec![1, 2]), None);
}

#[test]
fn funding_is_split_into_shares_that_add_up() {
    assert_eq!(split_funding(509_000, 3).unwrap(), vec![169_667, 169_667, 169_666]);
    assert_eq!(split_funding(10, 1).unwrap(), vec![10]);
    assert_eq!(split_funding(3, 3).unwrap(), vec![1, 1, 1]);
    let shares = split_funding(1_000_003, 7).unwrap();
    assert_eq!(shares.len(), 7);
    assert_eq!(shares.iter().sum::<u64>(), 1_000_003);
}

#[test]
fn funding_split_needs_an_output_and_a_unit_for_each() {
    assert_eq!(split_funding(509_000, 0), None);
    assert_eq!(split_funding(2, 3), None);
    assert_eq!(split_funding(0, 1), None);
}

#[test]
fn tolerance_is_symmetric_and_inclusive() {
    assert!(within_tolerance(100, 100, 0));
    assert!(within_tolerance(105, 100, 5));
    assert!(within_tolerance(95, 100, 5));
    assert!(!within_tolerance(106, 100, 5));
    assert!(!within_tolerance(94, 100, 5));
    assert!(within_tolerance(0, u64::MAX, u64::MAX));
}

#[test]
fn values_are_summed_without_overflow() {
    assert_eq!(sum_values(&vec![]), Some(0));
    assert_eq!(sum_values(&vec![1, 2, 3]), Some(6));
    assert_eq!(sum_values(&vec![u64::MAX, 0]), Some(u64::MAX));
    assert_eq!(sum_values(&vec![u64::MAX, 1]), None);
}
