use coinswap::error::ContractError;
use coinswap::locktime::{build_locktimes, check_locktimes};

#[test]
fn locktimes_decrease_by_the_step() {
    assert_eq!(build_locktimes(3, 48, 48), Ok(vec![144, 96, 48]));
    assert_eq!(build_locktimes(1, 48, 0), Ok(vec![48]));
    assert_eq!(build_locktimes(0, 48, 48), Ok(vec![]));
    assert_eq!(build_locktimes(2, u32::MAX - 1, 1), Ok(vec![u32::MAX, u32::MAX - 1]));
}

#[test]
fn built_locktimes_pass_the_check() {
    for hops in 0..6usize {
        let built = build_locktimes(hops, 20, 7).unwrap();
        assert_eq!(built.len(), hops);
        assert_eq!(check_locktimes(&built), Ok(()));
    }
}

#[test]
fn locktimes_that_cannot_decrease_are_refused() {
    assert_eq!(build_locktimes(2, 48, 0), Err(ContractError::LocktimeNotDecreasing));
    assert_eq!(build_locktimes(2, u32::MAX, 1), Err(ContractError::ValueOutOfBounds));
    assert_eq!(build_locktimes(3, u32::MAX - 1, 1), Err(ContractError::ValueOutOfBounds));
}

#[test]
fn a_chain_is_checked_hop_by_hop() {
    assert_eq!(check_locktimes(&vec![]), Ok(()));
    assert_eq!(check_locktimes(&vec![5]), Ok(()));
    assert_eq!(check_locktimes(&vec![3, 2, 1]), Ok(()));
    assert_eq!(check_locktimes(&vec![3, 3, 1]), Err(ContractError::LocktimeNotDecreasing));
    assert_eq!(check_locktimes(&vec![3, 2, 4]), Err(ContractError::LocktimeNotDecreasing));
    assert_eq!(check_locktimes(&vec![1, 2]), Err(ContractError::LocktimeNotDecreasing));
}
