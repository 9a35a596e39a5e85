use rebalance::error::ErrorKind;
use rebalance::rebalance::{check_series, find_shortestlen, is_triggered, is_triggered_by_interval};
use rebalance::search::{best_of_grid, first_best_index, trigger_grid, TriggerCandidate, TriggerFamily};
use rebalance::stats::{stat_windows, summary_bounds, StatWindow};

#[test]
fn interval_trigger() {
    assert!(is_triggered_by_interval(Some(5), 10));
    assert!(!is_triggered_by_interval(Some(5), 11));
    assert!(!is_triggered_by_interval(Some(0), 10));
    assert!(!is_triggered_by_interval(None, 10));
    assert!(is_triggered_by_interval(Some(1), 3));
}

#[test]
fn combined_trigger_rule() {
    // both configured: both must hold
    assert!(is_triggered(Some(2), Some(true), 4));
    assert!(!is_triggered(Some(2), Some(false), 4));
    assert!(!is_triggered(Some(2), Some(true), 3));
    // one configured: that one decides
    assert!(is_triggered(None, Some(true), 3));
    assert!(!is_triggered(None, Some(false), 3));
    assert!(is_triggered(Some(3), None, 3));
    // none configured: never
    assert!(!is_triggered(None, None, 0));
}

#[test]
fn shortest_and_series_checks() {
    assert_eq!(find_shortestlen(&[5, 3, 7]), Some(3));
    assert_eq!(find_shortestlen(&[]), None);
    assert_eq!(check_series(&[6, 6], 2).unwrap(), 6);
    assert_eq!(check_series(&[6, 4], 2).unwrap(), 4);
    assert_eq!(check_series(&[], 0).unwrap_err().kind, ErrorKind::EmptyInput);
    assert_eq!(check_series(&[1, 1], 2).unwrap_err().kind, ErrorKind::TooShort);
    assert_eq!(check_series(&[6, 6], 3).unwrap_err().kind, ErrorKind::Config);
}

#[test]
fn grid_order_and_size() {
    let g = trigger_grid(6);
    assert_eq!(g.len(), 3 * 14);
    assert_eq!(g[0], TriggerCandidate { interval: None, deviation_percent: None });
    assert_eq!(g[1], TriggerCandidate { interval: None, deviation_percent: Some(1) });
    assert_eq!(g[10], TriggerCandidate { interval: None, deviation_percent: Some(20) });
    assert_eq!(g[12], TriggerCandidate { interval: None, deviation_percent: Some(40) });
    assert_eq!(g[13], TriggerCandidate { interval: None, deviation_percent: Some(75) });
    assert_eq!(g[14], TriggerCandidate { interval: Some(1), deviation_percent: None });
    assert_eq!(g[15], TriggerCandidate { interval: Some(1), deviation_percent: Some(1) });
    assert_eq!(g[41], TriggerCandidate { interval: Some(2), deviation_percent: Some(75) });
    assert!(trigger_grid(1).is_empty());
}

#[test]
fn best_selection_takes_first_of_ties() {
    let g = trigger_grid(4);
    let mut keys = vec![0i64; g.len()];
    keys[3] = 10; // deviation only, 3 %
    keys[5] = 10; // deviation only, 5 %
    keys[14] = 7; // interval 1, no deviation
    keys[20] = 10; // interval 1 and deviation
    let b = best_of_grid(&g, &keys).unwrap();
    assert_eq!(b.best, 3);
    assert_eq!(b.with_best_dev, 3);
    assert_eq!(b.with_best_interval, 14);
    assert_eq!(first_best_index(&g, &keys, TriggerFamily::IntervalOnly), Some(14));
}

#[test]
fn best_selection_errors() {
    let g = trigger_grid(4);
    assert_eq!(best_of_grid(&g, &[1, 2]).unwrap_err().kind, ErrorKind::Config);
    assert_eq!(best_of_grid(&[], &[]).unwrap_err().kind, ErrorKind::NotFound);
    let only_both = [TriggerCandidate { interval: Some(1), deviation_percent: Some(5) }];
    assert_eq!(best_of_grid(&only_both, &[3]).unwrap_err().kind, ErrorKind::NotFound);
}

#[test]
fn windows_of_six_months() {
    let w = stat_windows(6, 3).unwrap();
    assert_eq!(
        w,
        vec![
            StatWindow { n_months: 3, n_starts: 4 },
            StatWindow { n_months: 4, n_starts: 3 },
            StatWindow { n_months: 5, n_starts: 2 },
            StatWindow { n_months: 6, n_starts: 1 },
        ]
    );
    assert!(stat_windows(6, 7).unwrap().is_empty());
    assert_eq!(stat_windows(6, 0).unwrap_err().kind, ErrorKind::Config);
}

#[test]
fn summary_percentiles() {
    let b = summary_bounds(&[4, 3]).unwrap();
    assert_eq!((b.min_n_months, b.max_n_months), (3, 4));
    assert_eq!((b.n_33, b.n_67), (1, 1));
    let b = summary_bounds(&[10, 11, 12, 13, 14, 15, 16, 17, 18, 19]).unwrap();
    assert_eq!((b.n_33, b.n_67), (3, 7));
    assert_eq!((b.n_months_33, b.n_months_67), (13, 17));
    let b = summary_bounds(&[3, 4, 5, 6]).unwrap();
    assert_eq!((b.n_33, b.n_67), (1, 3));
    assert_eq!(summary_bounds(&[]).unwrap_err().kind, ErrorKind::NotFound);
    assert_eq!(summary_bounds(&[5]).unwrap_err().kind, ErrorKind::TooShort);
}
