use rebalance::charts::{adapt_name, select_window, slice_by_date, start_end_date};
use rebalance::container_util::{remove_indices, MutItemList};
use rebalance::date::{fill_between, Date};
use rebalance::error::ErrorKind;
use rebalance::month_slider::{MonthSlider, MonthSliderPair, SliderState};
use rebalance::schedule::MonthlyPayments;
use rebalance::date::Interval;

fn d(s: &str) -> Date {
    Date::from_str(s).unwrap()
}

#[test]
fn aligned_window_of_two_series() {
    let a = fill_between(d("2000/01"), d("2000/12"));
    let b = fill_between(d("2000/06"), d("2001/03"));
    let (s, e) = start_end_date(&[a, b]).unwrap();
    assert_eq!((s, e), (d("2000/06"), d("2000/12")));
}

#[test]
fn one_month_overlap_is_an_alignment_error() {
    let a = fill_between(d("2000/01"), d("2000/06"));
    let b = fill_between(d("2000/06"), d("2000/09"));
    assert_eq!(start_end_date(&[a, b]).unwrap_err().kind, ErrorKind::Alignment);
    let c = fill_between(d("2001/01"), d("2001/06"));
    let a = fill_between(d("2000/01"), d("2000/06"));
    assert_eq!(start_end_date(&[a, c]).unwrap_err().kind, ErrorKind::Alignment);
    assert_eq!(start_end_date(&[]).unwrap_err().kind, ErrorKind::EmptyInput);
}

#[test]
fn empty_series_do_not_narrow() {
    let a = fill_between(d("2000/01"), d("2000/03"));
    let (s, e) = start_end_date(&[a, vec![]]).unwrap();
    assert_eq!((s, e), (d("2000/01"), d("2000/03")));
}

#[test]
fn user_window() {
    let w = (d("2000/01"), d("2000/12"));
    assert_eq!(select_window(w, None, None).unwrap(), w);
    assert_eq!(
        select_window(w, Some(d("2000/03")), None).unwrap(),
        (d("2000/03"), d("2000/12"))
    );
    assert_eq!(
        select_window(w, Some(d("2000/12")), None).unwrap_err().kind,
        ErrorKind::Alignment
    );
}

#[test]
fn slicing_by_date() {
    let dates = fill_between(d("2000/01"), d("2000/06"));
    let values = [1, 2, 3, 4, 5, 6];
    assert_eq!(
        slice_by_date(&dates, d("2000/02"), d("2000/04"), &values).unwrap(),
        &[2, 3, 4]
    );
    assert_eq!(
        slice_by_date(&dates, d("1999/02"), d("2000/01"), &values).unwrap(),
        &[1]
    );
    assert!(slice_by_date(&dates, d("2000/02"), d("2000/07"), &values).is_err());
    assert!(slice_by_date(&dates, d("2000/02"), d("2000/04"), &values[..2]).is_err());
}

#[test]
fn chart_names() {
    let names = vec!["a".to_string(), "b".to_string()];
    assert_eq!(adapt_name(&names, "c".to_string()), "c");
    assert_eq!(adapt_name(&names, "a".to_string()), "a_2");
}

#[test]
fn removing_positions() {
    let v = vec![10, 11, 12, 13, 14];
    assert_eq!(remove_indices(v, &[1, 3]), vec![10, 12, 14]);
    assert_eq!(remove_indices(vec![1, 2], &[]), vec![1, 2]);
    assert_eq!(remove_indices(vec![1, 2], &[0, 1, 7]), Vec::<i32>::new());
}

#[test]
fn item_list() {
    let mut l: MutItemList<u8> = MutItemList::default();
    l.push(3);
    l.push(4);
    assert_eq!(l.iter().copied().collect::<Vec<_>>(), vec![3, 4]);
    assert_eq!(l.remove(0), Some(3));
    assert_eq!(l.remove(5), None);
    assert_eq!(l.iter().copied().collect::<Vec<_>>(), vec![4]);
}

#[test]
fn slider_moves() {
    let mut s = MonthSlider::new(d("2000/01"), d("2000/04"), SliderState::First);
    assert!(s.is_initialized());
    assert!(s.is_at_start());
    assert_eq!(s.selected_date(), Some(d("2000/01")));
    s.move_left();
    assert_eq!(s.selected_date(), Some(d("2000/01")));
    s.move_right();
    s.move_right();
    s.move_right();
    assert!(s.is_at_end());
    s.move_right();
    assert_eq!(s.selected_date(), Some(d("2000/04")));
    let m = MonthSlider::new(d("2000/01"), d("2000/05"), SliderState::Unset);
    assert_eq!(m.selected_date(), Some(d("2000/03")));
    let out = MonthSlider::new(d("2000/01"), d("2000/02"), SliderState::At(9));
    assert_eq!(out.selected_date(), None);
    assert_eq!(SliderState::Last.slider_idx(4), Some(3));
    assert_eq!(SliderState::Last.slider_idx(0), None);
    assert!(!MonthSlider::default().is_initialized());
}

#[test]
fn slider_pair_keeps_order() {
    let start = MonthSlider::new(d("2000/01"), d("2000/04"), SliderState::Last);
    let end = MonthSlider::new(d("2000/01"), d("2000/04"), SliderState::First);
    let mut p = MonthSliderPair::new(start, end);
    p.start_moved();
    assert_eq!(p.selected_start_date(), Some(d("2000/03")));
    assert_eq!(p.selected_end_date(), Some(d("2000/04")));

    let start = MonthSlider::new(d("2000/01"), d("2000/04"), SliderState::At(2));
    let end = MonthSlider::new(d("2000/01"), d("2000/04"), SliderState::First);
    let mut p = MonthSliderPair::new(start, end);
    p.end_moved();
    assert_eq!(p.selected_end_date(), Some(d("2000/02")));
    assert_eq!(p.selected_start_date(), Some(d("2000/01")));
}

#[test]
fn payments_due_by_month() {
    let mp = MonthlyPayments::from_single_payment("100.0");
    assert_eq!(mp.due(d("1999/12")), vec![&"100.0"]);
    let iv1 = Interval::new(d("2000/11"), d("2013/11")).unwrap();
    let iv2 = Interval::new(d("2012/11"), d("2014/11")).unwrap();
    let mp = MonthlyPayments::from_intervals(vec!["1.0 / cb", "7.0"], vec![iv1, iv2]).unwrap();
    assert!(mp.due(d("2000/10")).is_empty());
    assert_eq!(mp.due(d("2001/10")), vec![&"1.0 / cb"]);
    assert_eq!(mp.due(d("2013/10")), vec![&"1.0 / cb", &"7.0"]);
    assert_eq!(mp.due(d("2014/11")), vec![&"7.0"]);
    let e = MonthlyPayments::from_intervals(vec!["1"], vec![]).unwrap_err();
    assert_eq!(e.kind, ErrorKind::Config);
}
