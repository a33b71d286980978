use mstl::periods::{normalize_periods, outer_iterations, seasonal_windows};
use mstl::Error;

#[test]
fn windows_follow_rank_formula() {
    let w = seasonal_windows(4);
    assert_eq!(w, vec![11, 15, 19, 23]);
    for x in &w {
        assert_eq!(x % 2, 1);
    }
}

#[test]
fn windows_ignore_period_values() {
    // Windows depend on the count alone, never on the periods.
    assert_eq!(seasonal_windows(2), vec![11, 15]);
    assert_eq!(seasonal_windows(0), Vec::<usize>::new());
}

#[test]
fn normalize_sorts_and_filters() {
    let mut periods = vec![168, 24, 3];
    let r = normalize_periods(&mut periods, 60);
    assert!(r.is_ok());
    // Sorted ascending, then 168 dropped because 168 > 60 / 2.
    assert_eq!(periods, vec![3, 24]);
}

#[test]
fn normalize_keeps_duplicates() {
    let mut periods = vec![24, 24];
    let r = normalize_periods(&mut periods, 100);
    assert!(r.is_ok());
    assert_eq!(periods, vec![24, 24]);
}

#[test]
fn normalize_rejects_empty() {
    let mut periods: Vec<usize> = Vec::new();
    let r = normalize_periods(&mut periods, 100);
    assert!(matches!(r, Err(Error::InvalidInput)));
}

#[test]
fn normalize_rejects_min_at_most_one() {
    let mut periods = vec![24, 1];
    let r = normalize_periods(&mut periods, 100);
    assert!(matches!(r, Err(Error::InvalidInput)));
    // Sorted even on failure: mutation is part of the contract.
    assert_eq!(periods, vec![1, 24]);
}

#[test]
fn normalize_can_leave_nothing() {
    // Validation passes, but no period fits the series.
    let mut periods = vec![50, 60];
    let r = normalize_periods(&mut periods, 40);
    assert!(r.is_ok());
    assert_eq!(periods, Vec::<usize>::new());
}

#[test]
fn outer_iterations_single_vs_many() {
    assert_eq!(outer_iterations(1), 1);
    assert_eq!(outer_iterations(2), 2);
    assert_eq!(outer_iterations(5), 2);
}
