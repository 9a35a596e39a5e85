use rebalance::date::{date_after_nmonths, fill_between, n_month_between_dates, Date, Interval};
use rebalance::error::ErrorKind;

fn yyyymm(d: Date) -> usize {
    d.year() * 100 + d.month()
}

#[test]
fn test_fromym() {
    fn test(year: usize, month: usize, reference: usize) {
        assert_eq!(yyyymm(Date::new(year, month).unwrap()), reference);
    }
    test(2000, 1, 200001);
    test(1999, 12, 199912);
    test(1, 8, 108);
    test(2023, 5, 202305);

    assert!(Date::new(0, 7).is_err());
    assert!(Date::new(0, 31).is_err());
    assert!(Date::new(2022, 31).is_err());
    assert!(Date::new(1990, 13).is_err());
    assert!(Date::new(0, 0).is_err());
    assert!(Date::new(2017, 0).is_err());
}

#[test]
fn test_dateaftermonth() {
    fn test(year: usize, month: usize, n_months: usize, reference: usize) {
        assert_eq!(
            yyyymm(date_after_nmonths(Date::new(year, month).unwrap(), n_months)),
            reference
        );
    }
    test(1990, 1, 12, 199101);
    test(1990, 1, 11, 199012);
    test(2023, 12, 13, 202501);
    test(2023, 7, 13, 202408);
    test(2023, 11, 1, 202312);
    test(2023, 11, 3, 202402);
}

#[test]
fn test_year_month() {
    fn test(d: &str, reference: usize, year: usize, month: usize) {
        let d = Date::from_str(d).unwrap();
        assert_eq!(yyyymm(d), reference);
        assert_eq!(d.year(), year);
        assert_eq!(d.month(), month);
    }
    test("1987/12", 198712, 1987, 12);
    test("1988/01", 198801, 1988, 1);
    test("2011/10", 201110, 2011, 10);
    test("1997/11", 199711, 1997, 11);
    assert!(Date::from_str("d").is_err());
    assert!(Date::from_str("199912").is_err());
    assert!(Date::from_str("1999/00").is_err());
    assert!(Date::from_str("1999/1").is_err());
}

#[test]
fn test_nextmonth() {
    fn test(year: usize, month: usize, reference: usize) {
        assert_eq!(yyyymm(Date::new(year, month).unwrap().next_month()), reference);
    }
    test(2022, 12, 202301);
    test(2022, 1, 202202);
}

#[test]
fn test_tostring() {
    assert_eq!(&Date::from_str("1988/12").unwrap().to_string(), "1988/12")
}

#[test]
fn test_arith() {
    let d1 = Date::from_str("1988/12").unwrap();
    let d2 = Date::from_str("1989/01").unwrap();
    assert_eq!(d1.add_months(1).unwrap(), d2);
    assert_eq!(n_month_between_dates(d1, d2), Some(1));
    assert_eq!(n_month_between_dates(d2, d1), None);
    let d1 = Date::from_str("1988/02").unwrap();
    let d2 = Date::from_str("1999/01").unwrap();
    assert_eq!(d1.add_months(10 * 12).unwrap().add_months(11).unwrap(), d2);
}

#[test]
fn test_interval() {
    let d1 = Date::from_str("1988/02").unwrap();
    let d2 = Date::from_str("1999/01").unwrap();
    let inter = Interval::new(d1, d2).unwrap();
    assert_eq!(inter.len(), 132);
    assert!(inter.contains(d1));
    assert!(inter.contains(d2));
    assert!(inter.contains(Date::from_str("1989/07").unwrap()));
}

#[test]
fn text_round_trip_examples() {
    for (y, m) in [(1, 1), (9, 9), (2024, 2), (9999, 12), (1970, 10)] {
        let d = Date::new(y, m).unwrap();
        assert_eq!(Date::from_str(&d.to_string()).unwrap(), d);
    }
    assert_eq!(Date::new(1, 8).unwrap().to_string(), "0001/08");
    assert_eq!(Date::new(12345, 3).unwrap().to_string(), "12345/03");
}

#[test]
fn from_str_rejects_other_shapes() {
    assert_eq!(Date::from_str("1999-01").unwrap_err().kind, ErrorKind::Config);
    assert!(Date::from_str("+999/01").is_err());
    assert!(Date::from_str("0000/01").is_err());
    assert!(Date::from_str("2000/13").is_err());
    assert!("2000/07".parse::<Date>().is_ok());
}

#[test]
fn months_between_and_back() {
    let d1 = Date::new(1995, 11).unwrap();
    let d2 = Date::new(2003, 2).unwrap();
    let n = n_month_between_dates(d1, d2).unwrap();
    assert_eq!(n, 87);
    assert_eq!(date_after_nmonths(d1, n), d2);
    assert_eq!(d1.n_month_until(d2).unwrap(), 87);
    assert_eq!(d2.n_month_until(d1).unwrap_err().kind, ErrorKind::Config);
    assert_eq!(n_month_between_dates(d1, d1), Some(0));
}

#[test]
fn add_months_overflow_is_an_error() {
    let d = Date::new(usize::MAX, 12).unwrap();
    assert!(d.add_months(1).is_err());
    assert_eq!(d.add_months(0).unwrap(), d);
    let e = Date::new(usize::MAX, 1).unwrap();
    assert_eq!(e.add_months(11).unwrap(), d);
}

#[test]
fn fill_between_months() {
    let s = Date::new(2020, 11).unwrap();
    let e = Date::new(2021, 2).unwrap();
    let v: Vec<String> = fill_between(s, e).iter().map(|d| d.to_string()).collect();
    assert_eq!(v, vec!["2020/11", "2020/12", "2021/01", "2021/02"]);
    assert_eq!(fill_between(e, s), vec![e]);
    assert_eq!(fill_between(s, s), vec![s]);
}

#[test]
fn interval_iteration() {
    let s = Date::new(2020, 12).unwrap();
    let e = Date::new(2021, 2).unwrap();
    let iv = Interval::new(s, e).unwrap();
    let mut it = iv.iter();
    assert_eq!(it.size_hint(), (3, Some(3)));
    assert_eq!(it.next(), Some(s));
    assert_eq!(it.next(), Some(Date::new(2021, 1).unwrap()));
    assert_eq!(it.next(), Some(e));
    assert_eq!(it.next(), None);
    assert_eq!(it.size_hint(), (0, Some(0)));
    assert!(Interval::new(e, s).is_err());
    assert!(!iv.contains(Date::new(2021, 3).unwrap()));
    assert!(!iv.contains(Date::new(2020, 11).unwrap()));
}
