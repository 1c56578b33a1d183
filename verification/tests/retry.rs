use ble_find::errors::Error;
use ble_find::retry::RetrySearch;

#[test]
fn zero_total_duration_times_out_before_any_scan() {
    let mut search = RetrySearch::new(7, 0);
    assert!(!search.begin_cycle());
    assert_eq!(search.timeout_error(), Error::TimedOut(0));
}

#[test]
fn interval_equal_to_total_allows_exactly_one_scan() {
    let mut search = RetrySearch::new(25, 25);
    assert!(search.begin_cycle());
    assert!(!search.begin_cycle());
}

#[test]
fn interval_above_total_allows_no_scan() {
    let mut search = RetrySearch::new(26, 25);
    assert!(!search.begin_cycle());
    assert_eq!(search.timeout_error(), Error::TimedOut(25));
}

#[test]
fn scans_happen_once_per_interval_until_the_deadline() {
    let mut search = RetrySearch::new(10, 35);
    assert!(search.begin_cycle());
    assert_eq!(search.elapsed_ms, 10);
    assert!(search.begin_cycle());
    assert_eq!(search.elapsed_ms, 20);
    assert!(search.begin_cycle());
    assert_eq!(search.elapsed_ms, 30);
    assert!(!search.begin_cycle());
    assert_eq!(search.elapsed_ms, 30);
    assert_eq!(search.timeout_error(), Error::TimedOut(35));
}

#[test]
fn device_visible_after_one_interval_is_found_when_two_fit() {
    // The device answers from the second scan on; two intervals of 10 fit
    // within a total of 20, so that scan is reached.
    let mut search = RetrySearch::new(10, 20);
    let mut found = false;
    let mut scans = 0u32;
    while !found {
        if !search.begin_cycle() {
            break;
        }
        scans += 1;
        found = scans >= 2;
    }
    assert!(found);
    assert_eq!(scans, 2);
}

#[test]
fn device_visible_after_one_interval_is_missed_when_only_one_fits() {
    // The device answers from the second scan on, but only one interval of
    // 10 fits within a total of 19: the search times out.
    let mut search = RetrySearch::new(10, 19);
    let mut found = false;
    let mut scans = 0u32;
    while !found {
        if !search.begin_cycle() {
            break;
        }
        scans += 1;
        found = scans >= 2;
    }
    assert!(!found);
    assert_eq!(scans, 1);
    assert_eq!(search.timeout_error(), Error::TimedOut(19));
}
