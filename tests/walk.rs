use rebalance::error::ErrorKind;
use rebalance::walk::{crash_damping, median_index};

#[test]
fn crash_damping_around_crashes() {
    let d = crash_damping(10, &[4]);
    assert_eq!(
        d,
        vec![None, None, Some(2), Some(1), Some(0), Some(1), Some(2), None, None, None]
    );
    let d = crash_damping(6, &[0, 5]);
    assert_eq!(d, vec![Some(0), Some(1), Some(2), Some(2), Some(1), Some(0)]);
    assert_eq!(crash_damping(3, &[]), vec![None, None, None]);
    assert!(crash_damping(0, &[1]).is_empty());
}

#[test]
fn median_of_window() {
    assert_eq!(median_index(12).unwrap(), 6);
    assert_eq!(median_index(1).unwrap(), 0);
    assert_eq!(median_index(0).unwrap_err().kind, ErrorKind::Config);
}
