use vstd::prelude::*;

use crate::date::Date;
use crate::text::push_char;

verus! {

/// The reply of the session store: a status code, a message and the payload.
#[derive(Debug, Clone)]
pub struct ResponsePayload<T> {
    pub status: u16,
    pub message: String,
    pub json_data: T,
}

/// The link that reopens a shared session.
pub fn sessionid_to_link(session_id: &str) -> (r: String)
    ensures
        r@ == "https://bertiqwerty.com/index.html?session_id="@ + session_id@,
{
    let mut s = String::from_str("https://bertiqwerty.com/index.html?session_id=");
    s.append(session_id);
    s
}

/// The part of `s` after the last `c`; all of `s` when it holds no `c`.
pub open spec fn after_last_char(s: Seq<char>, c: char) -> Seq<char>
    decreases s.len(),
{
    if s.len() == 0 {
        s
    } else if s.last() == c {
        Seq::empty()
    } else {
        after_last_char(s.drop_last(), c).push(s.last())
    }
}

pub open spec fn ends_with(s: Seq<char>, p: Seq<char>) -> bool {
    s.len() >= p.len() && s.subrange(s.len() - p.len(), s.len() as int) == p
}

/// The part of `s` after the last occurrence of `p`; all of `s` when `p` does not occur.
pub open spec fn after_last_pattern(s: Seq<char>, p: Seq<char>) -> Seq<char>
    decreases s.len(),
{
    if ends_with(s, p) {
        Seq::empty()
    } else if s.len() == 0 {
        s
    } else {
        after_last_pattern(s.drop_last(), p).push(s.last())
    }
}

/// Whether a character is alphabetic or numeric in the Unicode sense.
pub uninterp spec fn alphanumeric(c: char) -> bool;

/// The leading alphanumeric characters of `s`.
pub open spec fn alphanumeric_prefix(s: Seq<char>) -> Seq<char>
    decreases s.len(),
{
    if s.len() == 0 || !alphanumeric(s[0]) {
        Seq::empty()
    } else {
        seq![s[0]] + alphanumeric_prefix(s.drop_first())
    }
}

/// Relies on `char::is_alphanumeric`: Unicode `Alphabetic` or `Numeric`.
#[verifier::external_body]
fn is_alphanumeric(c: char) -> (r: bool)
    ensures
        r == alphanumeric(c),
{
    c.is_alphanumeric()
}

fn exec_after_last_char(s: &str, c: char) -> (r: String)
    ensures
        r@ == after_last_char(s@, c),
    decreases s@.len(),
{
    let n = s.unicode_len();
    if n == 0 {
        return String::new();
    }
    let last = s.get_char(n - 1);
    if last == c {
        String::new()
    } else {
        let head = s.substring_char(0, n - 1);
        proof {
            assert(head@ =~= s@.drop_last());
        }
        let mut r = exec_after_last_char(head, c);
        push_char(&mut r, last);
        r
    }
}

fn exec_ends_with(s: &str, p: &str) -> (r: bool)
    ensures
        r == ends_with(s@, p@),
{
    let n = s.unicode_len();
    let m = p.unicode_len();
    if n < m {
        return false;
    }
    let mut j: usize = 0;
    while j < m
        invariant
            n == s@.len(),
            m == p@.len(),
            m <= n,
            j <= m,
            forall|k: int| 0 <= k < j ==> s@[n - m + k] == p@[k],
        decreases m - j,
    {
        if s.get_char(n - m + j) != p.get_char(j) {
            proof {
                assert(s@.subrange(n - m, n as int)[j as int] != p@[j as int]);
            }
            return false;
        }
        j = j + 1;
    }
    proof {
        assert(s@.subrange(n - m, n as int) =~= p@);
    }
    true
}

fn exec_after_last_pattern(s: &str, p: &str) -> (r: String)
    ensures
        r@ == after_last_pattern(s@, p@),
    decreases s@.len(),
{
    if exec_ends_with(s, p) {
        return String::new();
    }
    let n = s.unicode_len();
    if n == 0 {
        return String::from_str(s);
    }
    let last = s.get_char(n - 1);
    let head = s.substring_char(0, n - 1);
    proof {
        assert(head@ =~= s@.drop_last());
    }
    let mut r = exec_after_last_pattern(head, p);
    push_char(&mut r, last);
    r
}

fn exec_alphanumeric_prefix(s: &str) -> (r: String)
    ensures
        r@ == alphanumeric_prefix(s@),
    decreases s@.len(),
{
    let n = s.unicode_len();
    if n == 0 {
        return String::new();
    }
    let first = s.get_char(0);
    if !is_alphanumeric(first) {
        return String::new();
    }
    let tail = s.substring_char(1, n);
    proof {
        assert(tail@ =~= s@.drop_first());
    }
    let rest = exec_alphanumeric_prefix(tail);
    let mut r = String::new();
    push_char(&mut r, first);
    r.append(rest.as_str());
    proof {
        assert(r@ =~= seq![first] + rest@);
    }
    r
}

/// The session id in a shared link: the alphanumeric run after the last `session_id=`
/// of the part after the last `?`.
pub fn sessionid_from_link(link: &str) -> (r: Option<String>)
    ensures
        r is Some,
        r->Some_0@ == alphanumeric_prefix(
            after_last_pattern(after_last_char(link@, '?'), "session_id="@),
        ),
{
    let query = exec_after_last_char(link, '?');
    let value = exec_after_last_pattern(query.as_str(), "session_id=");
    Some(exec_alphanumeric_prefix(value.as_str()))
}

/// The records of a CSV text read with default settings (the first line is a header):
/// each as its fields, or `None` where reading the record failed.
pub uninterp spec fn csv_records_of(text: Seq<char>) -> Seq<Option<Seq<Seq<char>>>>;

/// Relies on `csv::Reader::records` over `csv::Reader::from_reader`: the records of the
/// text, each as its fields or as the error met while reading it.
#[verifier::external_body]
fn csv_records(text: &str) -> (r: Vec<Option<Vec<String>>>)
    ensures
        r@.len() == csv_records_of(text@).len(),
        forall|i: int|
            0 <= i < r@.len() ==> match #[trigger] r@[i] {
                Some(fields) => csv_records_of(text@)[i] == Some(
                    fields@.map_values(|f: String| f@),
                ),
                None => csv_records_of(text@)[i] is None,
            },
{
    csv::Reader::from_reader(text.as_bytes()).records().map(
        |rec| rec.ok().map(|rec| rec.iter().map(|f| f.to_string()).collect()),
    ).collect()
}

/// The rows among `records` that read, have at least two fields and a date in the
/// first: each date with the text of the second field.
pub open spec fn dated(records: Seq<Option<Seq<Seq<char>>>>) -> Seq<(Date, Seq<char>)>
    decreases records.len(),
{
    if records.len() == 0 {
        Seq::empty()
    } else {
        let rest = dated(records.drop_last());
        match records.last() {
            Some(fields) => if fields.len() >= 2 && Date::from_text(fields[0]) is Some {
                rest.push((Date::from_text(fields[0])->Some_0, fields[1]))
            } else {
                rest
            },
            None => rest,
        }
    }
}

/// The dated rows among CSV records (`None` for a record that failed to read): each
/// date with the unparsed text of its value. Records that failed, have fewer than two
/// fields or hold no `YYYY/MM` date in the first are skipped.
pub fn rows_with_dates(records: &[Option<Vec<String>>]) -> (r: Vec<(Date, String)>)
    ensures
        ({
            let recs = records@.map_values(
                |o: Option<Vec<String>>|
                    match o {
                        Some(fields) => Some(fields@.map_values(|f: String| f@)),
                        None => None,
                    },
            );
            &&& r@.len() == dated(recs).len()
            &&& forall|i: int|
                0 <= i < r@.len() ==> (#[trigger] r@[i]).0 == dated(recs)[i].0 && r@[i].1@ == dated(
                    recs,
                )[i].1
        }),
{
    let ghost recs = records@.map_values(
        |o: Option<Vec<String>>|
            match o {
                Some(fields) => Some(fields@.map_values(|f: String| f@)),
                None => None,
            },
    );
    let mut rows: Vec<(Date, String)> = Vec::new();
    let mut i: usize = 0;
    while i < records.len()
        invariant
            i <= records@.len(),
            recs.len() == records@.len(),
            recs == records@.map_values(
                |o: Option<Vec<String>>|
                    match o {
                        Some(fields) => Some(fields@.map_values(|f: String| f@)),
                        None => None,
                    },
            ),
            rows@.len() == dated(recs.subrange(0, i as int)).len(),
            forall|k: int|
                0 <= k < rows@.len() ==> (#[trigger] rows@[k]).0 == dated(recs.subrange(0, i as int))[k].0
                    && rows@[k].1@ == dated(recs.subrange(0, i as int))[k].1,
        decreases records@.len() - i,
    {
        proof {
            assert(recs.subrange(0, i + 1).drop_last() =~= recs.subrange(0, i as int));
            assert(recs.subrange(0, i + 1).last() == recs[i as int]);
        }
        match &records[i] {
            Some(fields) => {
                if fields.len() >= 2 {
                    proof {
                        assert(fields@.map_values(|f: String| f@)[0] == fields@[0]@);
                        assert(fields@.map_values(|f: String| f@)[1] == fields@[1]@);
                    }
                    match Date::from_str(fields[0].as_str()) {
                        Ok(d) => {
                            rows.push((d, fields[1].clone()));
                        },
                        Err(_) => {},
                    }
                }
            },
            None => {},
        }
        i = i + 1;
    }
    proof {
        assert(recs.subrange(0, records@.len() as int) =~= recs);
    }
    rows
}

/// The dated rows of a two-column CSV text with a header line (see `rows_with_dates`).
pub fn dated_rows(csv: &str) -> (r: Vec<(Date, String)>)
    ensures
        r@.len() == dated(csv_records_of(csv@)).len(),
        forall|i: int|
            0 <= i < r@.len() ==> (#[trigger] r@[i]).0 == dated(csv_records_of(csv@))[i].0 && r@[i].1@
                == dated(csv_records_of(csv@))[i].1,
{
    let records = csv_records(csv);
    proof {
        let recs = records@.map_values(
            |o: Option<Vec<String>>|
                match o {
                    Some(fields) => Some(fields@.map_values(|f: String| f@)),
                    None => None,
                },
        );
        assert forall|k: int| 0 <= k < recs.len() implies recs[k] == csv_records_of(csv@)[k] by {
            match records@[k] {
                Some(fields) => {},
                None => {},
            }
        }
        assert(recs =~= csv_records_of(csv@));
    }
    rows_with_dates(&records)
}

/// Whether the dates follow each other month by month, without gaps.
pub fn are_consecutive(dates: &[Date]) -> (r: bool)
    ensures
        r == forall|i: int| 0 <= i < dates@.len() - 1 ==> (#[trigger] dates@[i + 1]).count() == dates@[i].count() + 1,
{
    let mut i: usize = 1;
    while i < dates.len()
        invariant
            1 <= i,
            forall|k: int| 0 <= k < i - 1 && k < dates@.len() - 1 ==> (#[trigger] dates@[k + 1]).count() == dates@[k].count() + 1,
        decreases dates@.len() - i,
    {
        let prev = dates[i - 1];
        let cur = dates[i];
        if !(prev.is_before(&cur) && !prev.next_is_before(&cur)) {
            proof {
                let k = i - 1;
                assert(dates@[k + 1].count() != dates@[k].count() + 1);
            }
            return false;
        }
        i = i + 1;
    }
    true
}

} // verus!
