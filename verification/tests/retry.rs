use coinswap::retry::{Retry, RetryPolicy};

#[test]
fn waits_double_up_to_the_longest_wait() {
    let mut retry = Retry::new(RetryPolicy { max_attempts: 7, base_delay: 10, max_delay: 100 });
    assert_eq!(retry.fail(), Some(10));
    assert_eq!(retry.fail(), Some(20));
    assert_eq!(retry.fail(), Some(40));
    assert_eq!(retry.fail(), Some(80));
    assert_eq!(retry.fail(), Some(100));
    assert_eq!(retry.fail(), Some(100));
    assert_eq!(retry.failures, 6);
    // the seventh try was the last
    assert_eq!(retry.fail(), None);
    assert_eq!(retry.fail(), None);
    assert_eq!(retry.failures, 6);
}

#[test]
fn a_single_try_is_not_repeated() {
    let mut once = Retry::new(RetryPolicy { max_attempts: 1, base_delay: 10, max_delay: 100 });
    assert_eq!(once.fail(), None);
    let mut never = Retry::new(RetryPolicy { max_attempts: 0, base_delay: 10, max_delay: 100 });
    assert_eq!(never.fail(), None);
}

#[test]
fn base_delay_above_the_longest_wait_is_cut() {
    let mut retry = Retry::new(RetryPolicy { max_attempts: 3, base_delay: 500, max_delay: 100 });
    assert_eq!(retry.fail(), Some(100));
    assert_eq!(retry.fail(), Some(100));
    assert_eq!(retry.fail(), None);
    let mut huge =
        Retry::new(RetryPolicy { max_attempts: 200, base_delay: 1, max_delay: u64::MAX });
    let mut last = 0;
    for _ in 0..100 {
        last = huge.fail().unwrap();
    }
    assert_eq!(last, u64::MAX);
}
