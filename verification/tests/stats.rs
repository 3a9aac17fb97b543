use intstats::stats::{count_occurrences, find_median_and_mode, find_mode, sort_ascending, StatsError};

fn median_as_f64(low: i32, high: i32) -> f64 {
    (low as f64 + high as f64) / 2.0
}

#[test]
fn median_mode_mixed() {
    let nums = vec![3, 1, 2, 2, 5, 2];
    let r = find_median_and_mode(&nums).unwrap();
    assert_eq!(median_as_f64(r.median_low, r.median_high), 2.0);
    assert_eq!(r.median_low, 2);
    assert_eq!(r.median_high, 2);
    assert_eq!(r.mode, 2);
}

#[test]
fn median_mode_single() {
    let nums = vec![7];
    let r = find_median_and_mode(&nums).unwrap();
    assert_eq!(median_as_f64(r.median_low, r.median_high), 7.0);
    assert_eq!(r.mode, 7);
}

#[test]
fn median_tied_modes() {
    let nums = vec![1, 1, 2, 2];
    let r = find_median_and_mode(&nums).unwrap();
    assert_eq!(median_as_f64(r.median_low, r.median_high), 1.5);
    // the two middle elements differ, so the median is not a member
    assert_eq!(r.median_low, 1);
    assert_eq!(r.median_high, 2);
    // 1 and 2 tie at count 2; either is a mode, and the tie-break picks the smaller
    assert_eq!(count_occurrences(&nums, r.mode), 2);
    assert!(r.mode == 1 || r.mode == 2);
    assert_eq!(r.mode, 1);
}

#[test]
fn empty_input_is_rejected() {
    let nums: Vec<i32> = vec![];
    assert_eq!(find_median_and_mode(&nums), Err(StatsError::EmptyInput));
}

#[test]
fn running_twice_gives_the_same_result() {
    let nums = vec![9, -3, 9, 0, 4, 4, 9];
    let first = find_median_and_mode(&nums).unwrap();
    let second = find_median_and_mode(&nums).unwrap();
    assert_eq!(first, second);
}

#[test]
fn odd_length_median_is_a_member() {
    let nums = vec![5, 3, 9];
    let r = find_median_and_mode(&nums).unwrap();
    assert_eq!(r.median_low, r.median_high);
    assert!(nums.contains(&r.median_low));
    assert_eq!(median_as_f64(r.median_low, r.median_high), 5.0);
}

#[test]
fn mode_count_dominates_every_value() {
    let nums = vec![4, 7, 4, 7, 1, 4];
    let r = find_median_and_mode(&nums).unwrap();
    assert_eq!(r.mode, 4);
    let mode_count = count_occurrences(&nums, r.mode);
    for &x in &nums {
        assert!(count_occurrences(&nums, x) <= mode_count);
    }
}

#[test]
fn sort_ascending_orders_and_keeps_length() {
    let nums = vec![3, 1, 2, 2, 5, 2];
    let sorted = sort_ascending(&nums);
    assert_eq!(sorted, vec![1, 2, 2, 2, 3, 5]);
    assert_eq!(sorted.len(), nums.len());
}

#[test]
fn sort_ascending_of_empty_is_empty() {
    let nums: Vec<i32> = vec![];
    assert_eq!(sort_ascending(&nums), Vec::<i32>::new());
}

#[test]
fn count_occurrences_exact() {
    let nums = vec![2, 5, 2, 2, 5];
    assert_eq!(count_occurrences(&nums, 2), 3);
    assert_eq!(count_occurrences(&nums, 5), 2);
    assert_eq!(count_occurrences(&nums, 9), 0);
}

#[test]
fn find_mode_breaks_ties_by_smallest() {
    let nums = vec![2, 1, 1, 2];
    assert_eq!(find_mode(&nums), 1);
}

#[test]
fn extreme_values_are_handled() {
    let nums = vec![i32::MAX, i32::MIN, i32::MAX];
    let r = find_median_and_mode(&nums).unwrap();
    assert_eq!(r.median_low, i32::MAX);
    assert_eq!(r.median_high, i32::MAX);
    assert_eq!(r.mode, i32::MAX);
}
