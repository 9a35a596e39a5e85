use rebalance::date::{fill_between, Date};
use rebalance::io::{are_consecutive, dated_rows, rows_with_dates};

fn d(s: &str) -> Date {
    Date::from_str(s).unwrap()
}

#[test]
fn csv_rows_with_header() {
    let text = "date,price\n2000/01,1.5\n2000/02,2.0\nnot a date,3\n2000/03,x\n";
    let rows = dated_rows(text);
    assert_eq!(
        rows,
        vec![
            (d("2000/01"), "1.5".to_string()),
            (d("2000/02"), "2.0".to_string()),
            (d("2000/03"), "x".to_string()),
        ]
    );
}

#[test]
fn csv_rows_skip_short_and_failed_records() {
    let text = "date,price\n2000/01,1.5\n2000/02\n2000/03,2,9\n";
    // records of another length than the header fail to read
    assert_eq!(dated_rows(text), vec![(d("2000/01"), "1.5".to_string())]);
    assert!(dated_rows("").is_empty());
}

#[test]
fn rows_from_records() {
    let records = vec![
        Some(vec!["2001/12".to_string(), "7".to_string()]),
        None,
        Some(vec!["2002/01".to_string()]),
        Some(vec!["2002/13".to_string(), "1".to_string()]),
        Some(vec!["2002/02".to_string(), "8".to_string(), "z".to_string()]),
    ];
    assert_eq!(
        rows_with_dates(&records),
        vec![(d("2001/12"), "7".to_string()), (d("2002/02"), "8".to_string())]
    );
}

#[test]
fn consecutive_months() {
    assert!(are_consecutive(&fill_between(d("1999/11"), d("2000/02"))));
    assert!(are_consecutive(&[]));
    assert!(are_consecutive(&[d("2000/01")]));
    assert!(!are_consecutive(&[d("2000/01"), d("2000/03")]));
    assert!(!are_consecutive(&[d("2000/02"), d("2000/01")]));
    assert!(!are_consecutive(&[d("2000/01"), d("2000/01")]));
}
