use vstd::prelude::*;

use crate::date::Date;
use crate::error::{BlcError, BlcResult, ErrorKind};
use crate::text::{padded_decimal, push_char, push_padded_decimal};

verus! {

/// The first date of a series; a series without dates reaches back to 0001/01.
pub open spec fn first_or_floor(dates: Seq<Date>) -> Date {
    if dates.len() == 0 {
        Date::at_count(13int)
    } else {
        dates[0]
    }
}

/// The last date of a series; a series without dates reaches up to 9999/12.
pub open spec fn last_or_ceiling(dates: Seq<Date>) -> Date {
    if dates.len() == 0 {
        Date::at_count(9999int * 12 + 12)
    } else {
        dates.last()
    }
}

/// Whether the date ranges of all series overlap in more than one month.
pub open spec fn overlaps(lists: Seq<Vec<Date>>) -> bool {
    forall|i: int, j: int|
        0 <= i < lists.len() && 0 <= j < lists.len() ==> (#[trigger] first_or_floor(lists[i]@)).count()
            < (#[trigger] last_or_ceiling(lists[j]@)).count()
}

/// Intersects the date ranges of several series: the latest first date and the earliest
/// last date. No series is an empty-input error; an intersection of one month or none is
/// an alignment error.
pub fn start_end_date(date_lists: &[Vec<Date>]) -> (r: BlcResult<(Date, Date)>)
    ensures
        date_lists@.len() == 0 ==> r is Err && r->Err_0.kind == ErrorKind::EmptyInput,
        date_lists@.len() > 0 ==> (r is Ok <==> overlaps(date_lists@)),
        date_lists@.len() > 0 && r is Err ==> r->Err_0.kind == ErrorKind::Alignment,
        r is Ok ==> {
            let (s, e) = r->Ok_0;
            &&& exists|i: int| 0 <= i < date_lists@.len() && s == first_or_floor(#[trigger] date_lists@[i]@)
            &&& exists|i: int| 0 <= i < date_lists@.len() && e == last_or_ceiling(#[trigger] date_lists@[i]@)
            &&& forall|i: int| 0 <= i < date_lists@.len() ==> first_or_floor(
                #[trigger] date_lists@[i]@,
            ).count() <= s.count()
            &&& forall|i: int| 0 <= i < date_lists@.len() ==> e.count() <= last_or_ceiling(
                #[trigger] date_lists@[i]@,
            ).count()
        },
{
    if date_lists.len() == 0 {
        return Err(
            BlcError::with_kind(
                ErrorKind::EmptyInput,
                "add simulated or historical charts to compute a portfolio development",
            ),
        );
    }
    let floor = Date::of(1, 1);
    let ceiling = Date::of(9999, 12);
    let mut start = floor;
    let mut end = ceiling;
    let mut i: usize = 0;
    while i < date_lists.len()
        invariant
            i <= date_lists@.len(),
            date_lists@.len() > 0,
            floor == Date::at_count(13int),
            ceiling == Date::at_count(9999int * 12 + 12),
            i == 0 ==> start == floor && end == ceiling,
            i > 0 ==> exists|k: int| 0 <= k < i && start == first_or_floor(#[trigger] date_lists@[k]@),
            i > 0 ==> exists|k: int| 0 <= k < i && end == last_or_ceiling(#[trigger] date_lists@[k]@),
            forall|k: int| 0 <= k < i ==> first_or_floor(#[trigger] date_lists@[k]@).count()
                <= start.count(),
            forall|k: int| 0 <= k < i ==> end.count() <= last_or_ceiling(#[trigger] date_lists@[k]@).count(),
        decreases date_lists@.len() - i,
    {
        let dates = &date_lists[i];
        let first = if dates.len() == 0 {
            floor
        } else {
            dates[0]
        };
        let last = if dates.len() == 0 {
            ceiling
        } else {
            dates[dates.len() - 1]
        };
        if i == 0 || start.is_before(&first) {
            start = first;
        }
        if i == 0 || last.is_before(&end) {
            end = last;
        }
        i = i + 1;
    }
    if !start.is_before(&end) {
        proof {
            let ks = choose|k: int| 0 <= k < date_lists@.len() && start == first_or_floor(#[trigger] date_lists@[k]@);
            let ke = choose|k: int| 0 <= k < date_lists@.len() && end == last_or_ceiling(#[trigger] date_lists@[k]@);
            assert(!(first_or_floor(date_lists@[ks]@).count() < last_or_ceiling(date_lists@[ke]@).count()));
        }
        Err(
            BlcError::with_kind(
                ErrorKind::Alignment,
                "the start date needs to lie strictly before the end date",
            ),
        )
    } else {
        proof {
            assert forall|a: int, b: int|
                0 <= a < date_lists@.len() && 0 <= b < date_lists@.len() implies (#[trigger] first_or_floor(
                date_lists@[a]@)).count() < (#[trigger] last_or_ceiling(date_lists@[b]@)).count() by {
                assert(first_or_floor(date_lists@[a]@).count() <= start.count());
                assert(end.count() <= last_or_ceiling(date_lists@[b]@).count());
            }
        }
        Ok((start, end))
    }
}

/// Narrows an aligned window to the months a user selected; the start must stay strictly
/// before the end.
pub fn select_window(aligned: (Date, Date), user_start: Option<Date>, user_end: Option<Date>) -> (r:
    BlcResult<(Date, Date)>)
    ensures
        ({
            let s = match user_start {
                Some(d) => d,
                None => aligned.0,
            };
            let e = match user_end {
                Some(d) => d,
                None => aligned.1,
            };
            &&& r is Ok <==> s.count() < e.count()
            &&& r is Ok ==> r->Ok_0 == (s, e)
            &&& r is Err ==> r->Err_0.kind == ErrorKind::Alignment
        }),
{
    let start = match user_start {
        Some(d) => d,
        None => aligned.0,
    };
    let end = match user_end {
        Some(d) => d,
        None => aligned.1,
    };
    if start.is_before(&end) {
        Ok((start, end))
    } else {
        Err(BlcError::with_kind(ErrorKind::Alignment, "start needs to be before end"))
    }
}

/// `i` is the first position of `dates` whose date is not before month `c`
/// (`dates.len()` when there is none).
pub open spec fn first_reaching(dates: Seq<Date>, c: int, i: int) -> bool {
    &&& 0 <= i <= dates.len()
    &&& forall|k: int| 0 <= k < i ==> (#[trigger] dates[k]).count() < c
    &&& i < dates.len() ==> dates[i].count() >= c
}

fn position_reaching(dates: &[Date], d: Date) -> (r: usize)
    ensures
        first_reaching(dates@, d.count(), r as int),
{
    let mut i: usize = 0;
    while i < dates.len() && dates[i].is_before(&d)
        invariant
            i <= dates@.len(),
            forall|k: int| 0 <= k < i ==> (#[trigger] dates@[k]).count() < d.count(),
        decreases dates@.len() - i,
    {
        i = i + 1;
    }
    i
}

/// The part of `to_be_sliced` that lies between `start_date` and `end_date`, positions
/// taken from the parallel `dates`: from the first date not before `start_date` through
/// the first date not before `end_date`.
pub fn slice_by_date<'a, T>(
    dates: &[Date],
    start_date: Date,
    end_date: Date,
    to_be_sliced: &'a [T],
) -> (r: BlcResult<&'a [T]>)
    ensures
        forall|si: int, ei: int|
            first_reaching(dates@, start_date.count(), si) && first_reaching(
                dates@,
                end_date.count(),
                ei,
            ) ==> {
                &&& r is Ok <==> (si < dates@.len() && ei < dates@.len() && si <= ei + 1 && ei + 1
                    <= to_be_sliced@.len())
                &&& r is Ok ==> r->Ok_0@ == to_be_sliced@.subrange(si, ei + 1)
                &&& r is Err ==> r->Err_0.kind == ErrorKind::Alignment
            },
{
    let start_idx = position_reaching(dates, start_date);
    let end_pos = position_reaching(dates, end_date);
    proof {
        assert forall|si: int, ei: int|
            first_reaching(dates@, start_date.count(), si) && first_reaching(
                dates@,
                end_date.count(),
                ei,
            ) implies si == start_idx && ei == end_pos by {
            if si < start_idx {
                assert(dates@[si].count() < start_date.count());
            }
            if start_idx < si {
                assert(dates@[start_idx as int].count() < start_date.count());
            }
            if ei < end_pos {
                assert(dates@[ei].count() < end_date.count());
            }
            if end_pos < ei {
                assert(dates@[end_pos as int].count() < end_date.count());
            }
        }
    }
    if start_idx == dates.len() {
        return Err(
            BlcError::with_kind(ErrorKind::Alignment, "slice by date: no start index found"),
        );
    }
    if end_pos == dates.len() {
        return Err(BlcError::with_kind(ErrorKind::Alignment, "slice by date: no end index found"));
    }
    let end_idx = end_pos + 1;
    if start_idx > end_idx || end_idx > to_be_sliced.len() {
        return Err(
            BlcError::with_kind(ErrorKind::Alignment, "slice by date: the range does not fit"),
        );
    }
    Ok(&to_be_sliced[start_idx..end_idx])
}

/// A chart name that does not clash with the existing ones: `name` itself, or `name`
/// followed by `_` and the number of existing names.
pub fn adapt_name(existing: &[String], name: String) -> (r: String)
    ensures
        (exists|i: int| 0 <= i < existing@.len() && (#[trigger] existing@[i])@ == name@) ==> r@
            == name@ + seq!['_'] + padded_decimal(existing@.len() as nat, 0),
        !(exists|i: int| 0 <= i < existing@.len() && (#[trigger] existing@[i])@ == name@) ==> r@
            == name@,
{
    let mut exists = false;
    let mut i: usize = 0;
    while i < existing.len()
        invariant
            i <= existing@.len(),
            exists <==> (exists|k: int| 0 <= k < i && (#[trigger] existing@[k])@ == name@),
        decreases existing@.len() - i,
    {
        if existing[i] == name {
            exists = true;
        }
        i = i + 1;
    }
    if exists {
        let mut s = name;
        push_char(&mut s, '_');
        push_padded_decimal(&mut s, existing.len(), 0);
        s
    } else {
        name
    }
}

} // verus!
