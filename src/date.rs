use vstd::prelude::*;

use crate::error::{BlcError, BlcResult, ErrorKind};
use crate::text::{
    all_digits, digits_value, lemma_digits_value_bound, lemma_padded_decimal_exact, padded_decimal,
    parse_digits, pow10, push_char, push_padded_decimal,
};

verus! {

/// A calendar month: a year of at least 1 and a month in 1..=12.
#[derive(Clone, Copy, Debug, PartialEq, Eq, Structural, PartialOrd, Ord, Hash)]
pub struct Date {
    year: usize,
    month: usize,
}

impl Date {
    #[verifier::type_invariant]
    pub closed spec fn valid(self) -> bool {
        self.year >= 1 && 1 <= self.month <= 12
    }

    pub closed spec fn spec_year(self) -> int {
        self.year as int
    }

    pub closed spec fn spec_month(self) -> int {
        self.month as int
    }

    /// Position on the month line: `year * 12 + month`.
    pub open spec fn count(self) -> int {
        self.spec_year() * 12 + self.spec_month()
    }

    /// The month at position `c` of the month line (the inverse of `count`).
    pub closed spec fn at_count(c: int) -> Date {
        Date { year: ((c - 1) / 12) as usize, month: ((c - 1) % 12 + 1) as usize }
    }

    /// The month `n` months after `self`.
    pub open spec fn after(self, n: int) -> Date {
        Date::at_count(self.count() + n)
    }

    /// Whether the month `n` months after `self` has a year that fits in `usize`.
    pub open spec fn can_advance(self, n: int) -> bool {
        (self.count() + n - 1) / 12 <= usize::MAX
    }

    /// `YYYY/MM`: the year zero-padded to four digits, the month to two.
    pub open spec fn text(self) -> Seq<char> {
        padded_decimal(self.spec_year() as nat, 4) + seq!['/'] + padded_decimal(
            self.spec_month() as nat,
            2,
        )
    }

    /// Year and month that a text of the form `YYYY/MM` spells, if it has that form.
    pub open spec fn text_parts(t: Seq<char>) -> Option<(int, int)> {
        if t.len() == 7 && all_digits(t.subrange(0, 4)) && t[4] == '/' && all_digits(
            t.subrange(5, 7),
        ) {
            Some((digits_value(t.subrange(0, 4)), digits_value(t.subrange(5, 7))))
        } else {
            None
        }
    }

    /// The date that a text denotes: `YYYY/MM` with a valid year and month.
    pub open spec fn from_text(t: Seq<char>) -> Option<Date> {
        match Date::text_parts(t) {
            Some((y, m)) => if y >= 1 && 1 <= m <= 12 {
                Some(Date::at_count(y * 12 + m))
            } else {
                None
            },
            None => None,
        }
    }

    pub proof fn lemma_at_count(y: int, m: int)
        requires
            1 <= y <= usize::MAX,
            1 <= m <= 12,
        ensures
            Date::at_count(y * 12 + m).spec_year() == y,
            Date::at_count(y * 12 + m).spec_month() == m,
            Date::at_count(y * 12 + m).valid(),
            Date::at_count(y * 12 + m).count() == y * 12 + m,
    {
        vstd::arithmetic::div_mod::lemma_fundamental_div_mod_converse(y * 12 + m - 1, 12, y, m - 1);
    }

    /// A valid date is the one at its own position on the month line.
    pub proof fn lemma_count_determines(d: Date)
        requires
            d.valid(),
        ensures
            Date::at_count(d.count()) == d,
    {
        Date::lemma_at_count(d.spec_year(), d.spec_month());
    }

    /// Moving along the month line stays on valid dates while the year fits.
    pub proof fn lemma_after(d: Date, n: int)
        requires
            d.valid(),
            n >= 0,
            d.can_advance(n),
        ensures
            d.after(n).valid(),
            d.after(n).count() == d.count() + n,
    {
        let c = d.count() + n;
        let y = (c - 1) / 12;
        let m = (c - 1) % 12 + 1;
        assert(c - 1 == y * 12 + (m - 1));
        assert(y >= 1);
        Date::lemma_at_count(y, m);
    }

    pub fn new(year: usize, month: usize) -> (r: BlcResult<Date>)
        ensures
            r is Ok <==> (1 <= month <= 12 && year >= 1),
            r is Err ==> r->Err_0.kind == ErrorKind::Config,
            r is Ok ==> r->Ok_0.spec_year() == year && r->Ok_0.spec_month() == month,
            r is Ok ==> r->Ok_0 == Date::at_count(year * 12 + month),
    {
        if month == 0 || month > 12 {
            Err(BlcError::new("months range from 1 to 12"))
        } else if year == 0 {
            Err(BlcError::new("there was no year 0"))
        } else {
            proof {
                Date::lemma_at_count(year as int, month as int);
            }
            Ok(Date { year, month })
        }
    }

    /// The date of a year and month known to be valid.
    pub(crate) fn of(year: usize, month: usize) -> (r: Date)
        requires
            year >= 1,
            1 <= month <= 12,
        ensures
            r == Date::at_count(year * 12 + month),
            r.valid(),
    {
        proof {
            Date::lemma_at_count(year as int, month as int);
        }
        Date { year, month }
    }

    pub fn year(&self) -> (r: usize)
        ensures
            r == self.spec_year(),
            r >= 1,
    {
        proof {
            use_type_invariant(self);
        }
        self.year
    }

    pub fn month(&self) -> (r: usize)
        ensures
            r == self.spec_month(),
            1 <= r <= 12,
    {
        proof {
            use_type_invariant(self);
        }
        self.month
    }

    /// Whether `self` lies strictly before `other`.
    pub fn is_before(&self, other: &Date) -> (r: bool)
        ensures
            r == (self.count() < other.count()),
    {
        proof {
            use_type_invariant(self);
            use_type_invariant(other);
        }
        self.year < other.year || (self.year == other.year && self.month < other.month)
    }

    /// Whether the month after `self` lies strictly before `other`.
    pub fn next_is_before(&self, other: &Date) -> (r: bool)
        ensures
            r == (self.count() + 1 < other.count()),
    {
        proof {
            use_type_invariant(self);
            use_type_invariant(other);
        }
        if self.month == 12 {
            self.year < other.year && (self.year + 1 < other.year || other.month > 1)
        } else {
            self.year < other.year || (self.year == other.year && self.month + 1 < other.month)
        }
    }

    /// The month `n` months after `self`; an error when its year does not fit in `usize`.
    pub fn add_months(self, n: usize) -> (r: BlcResult<Date>)
        ensures
            r is Ok <==> self.can_advance(n as int),
            r is Ok ==> r->Ok_0 == self.after(n as int),
            r is Ok ==> r->Ok_0.count() == self.count() + n,
            r is Err ==> r->Err_0.kind == ErrorKind::Config,
    {
        proof {
            use_type_invariant(&self);
        }
        let rest = self.month - 1 + n % 12;
        let carry = n / 12 + rest / 12;
        let month = rest % 12 + 1;
        proof {
            let c = self.count() + n;
            assert(n == (n / 12) * 12 + n % 12);
            assert(rest == (rest / 12) * 12 + rest % 12);
            assert(c - 1 == (self.year + carry) * 12 + (month - 1));
            vstd::arithmetic::div_mod::lemma_fundamental_div_mod_converse(
                c - 1,
                12,
                self.year + carry,
                month - 1,
            );
        }
        match self.year.checked_add(carry) {
            Some(year) => {
                proof {
                    Date::lemma_after(self, n as int);
                }
                Ok(Date { year, month })
            },
            None => Err(BlcError::new("the year of the date is out of range")),
        }
    }

    /// The following month.
    pub fn next_month(&self) -> (r: Date)
        requires
            self.can_advance(1),
        ensures
            r == self.after(1),
            r.count() == self.count() + 1,
    {
        match self.add_months(1) {
            Ok(d) => d,
            Err(_) => {
                proof {
                    assert(false);
                }
                *self
            },
        }
    }

    /// Months from `self` to `later`; an error when `later` lies before `self`.
    pub fn n_month_until(&self, later: Date) -> (r: BlcResult<usize>)
        ensures
            r is Ok <==> (self.count() <= later.count() && later.count() - self.count()
                <= usize::MAX),
            r is Ok ==> r->Ok_0 == later.count() - self.count(),
            r is Err ==> r->Err_0.kind == ErrorKind::Config,
    {
        match n_month_between_dates(*self, later) {
            Some(n) => Ok(n),
            None => Err(BlcError::new("later must be after self")),
        }
    }

    /// Formats as `YYYY/MM`.
    pub fn to_string(&self) -> (r: String)
        ensures
            r@ == self.text(),
    {
        let mut s = String::new();
        push_padded_decimal(&mut s, self.year, 4);
        push_char(&mut s, '/');
        push_padded_decimal(&mut s, self.month, 2);
        proof {
            assert(s@ =~= self.text());
        }
        s
    }

    /// Reads `YYYY/MM`: four digits, a slash and two digits naming a valid date.
    pub fn from_str(d: &str) -> (r: BlcResult<Date>)
        ensures
            r is Ok <==> Date::from_text(d@) is Some,
            r is Ok ==> Date::from_text(d@) == Some(r->Ok_0),
            r is Err ==> r->Err_0.kind == ErrorKind::Config,
    {
        if d.unicode_len() != 7 {
            return Err(BlcError::new("a date needs 7 characters, YYYY/MM"));
        }
        let year = parse_digits(d, 0, 4);
        let slash = d.get_char(4);
        let month = parse_digits(d, 5, 7);
        match (year, month) {
            (Some(y), Some(m)) => {
                if slash != '/' {
                    Err(BlcError::new("year and month of a date are separated by /"))
                } else {
                    Date::new(y, m)
                }
            },
            _ => Err(BlcError::new("a date needs digits, YYYY/MM")),
        }
    }
}

impl std::str::FromStr for Date {
    type Err = BlcError;

    fn from_str(d: &str) -> Result<Date, BlcError> {
        Date::from_str(d)
    }
}

/// Months from `earlier` to `later`; `None` when `later` lies before `earlier` or the
/// count does not fit in `usize`.
pub fn n_month_between_dates(earlier: Date, later: Date) -> (r: Option<usize>)
    ensures
        r == if earlier.count() <= later.count() && later.count() - earlier.count() <= usize::MAX {
            Some((later.count() - earlier.count()) as usize)
        } else {
            None::<usize>
        },
{
    proof {
        use_type_invariant(&earlier);
        use_type_invariant(&later);
    }
    if later.is_before(&earlier) {
        None
    } else {
        let year_diff = later.year() - earlier.year();
        let (e_month, l_month) = (earlier.month(), later.month());
        let (months_diff, year_correction): (usize, usize) = if l_month >= e_month {
            (l_month - e_month, 0)
        } else {
            (12 - e_month + l_month, 1)
        };
        let years = year_diff - year_correction;
        match years.checked_mul(12) {
            Some(full) => full.checked_add(months_diff),
            None => None,
        }
    }
}

/// The date `n_months` months after `t0`.
pub fn date_after_nmonths(t0: Date, n_months: usize) -> (r: Date)
    requires
        t0.can_advance(n_months as int),
    ensures
        r == t0.after(n_months as int),
        r.count() == t0.count() + n_months,
{
    match t0.add_months(n_months) {
        Ok(d) => d,
        Err(_) => {
            proof {
                assert(false);
            }
            t0
        },
    }
}

} // verus!

verus! {

/// The consecutive months from `start` through `end`; just `start` when `end` lies
/// before it.
pub fn fill_between(start: Date, end: Date) -> (r: Vec<Date>)
    ensures
        start.count() <= end.count() ==> r@.len() == end.count() - start.count() + 1,
        start.count() > end.count() ==> r@ == seq![start],
        forall|i: int| 0 <= i < r@.len() ==> #[trigger] r@[i] == start.after(i),
{
    proof {
        use_type_invariant(&start);
        use_type_invariant(&end);
        Date::lemma_count_determines(start);
    }
    let mut v: Vec<Date> = Vec::new();
    let mut d = start;
    v.push(d);
    while d.is_before(&end)
        invariant
            end.valid(),
            start.valid(),
            v@.len() >= 1,
            d == start.after(v@.len() - 1),
            d.count() == start.count() + v@.len() - 1,
            forall|i: int| 0 <= i < v@.len() ==> #[trigger] v@[i] == start.after(i),
            start.count() <= end.count() ==> d.count() <= end.count(),
            start.count() > end.count() ==> v@ == seq![start],
        decreases end.count() - d.count(),
    {
        proof {
            use_type_invariant(&d);
        }
        let next = d.next_month();
        proof {
            assert(next == start.after(v@.len() as int));
        }
        d = next;
        v.push(d);
    }
    v
}

/// A closed range of months, both ends included.
#[derive(Clone, Copy, Debug)]
pub struct Interval {
    start: Date,
    end: Date,
    len_in_months: usize,
}

impl Interval {
    #[verifier::type_invariant]
    closed spec fn wf(self) -> bool {
        &&& self.start.count() <= self.end.count()
        &&& self.len_in_months == self.end.count() - self.start.count() + 1
    }

    pub closed spec fn spec_start(self) -> Date {
        self.start
    }

    pub closed spec fn spec_end(self) -> Date {
        self.end
    }

    /// Whether `d` lies in the interval.
    pub open spec fn holds(self, d: Date) -> bool {
        self.spec_start().count() <= d.count() <= self.spec_end().count()
    }

    /// The interval from `start` through `end`; an error when `end` lies before `start`
    /// or the number of months does not fit in `usize`.
    pub fn new(start: Date, end: Date) -> (r: BlcResult<Self>)
        ensures
            r is Ok <==> (start.count() <= end.count() && end.count() - start.count()
                < usize::MAX),
            r is Ok ==> r->Ok_0.spec_start() == start && r->Ok_0.spec_end() == end,
            r is Err ==> r->Err_0.kind == ErrorKind::Config,
    {
        let n = start.n_month_until(end)?;
        if n == usize::MAX {
            return Err(BlcError::new("the interval is too long"));
        }
        Ok(Interval { start, end, len_in_months: n + 1 })
    }

    /// The number of months, both ends counted.
    pub fn len(&self) -> (r: usize)
        ensures
            r == self.spec_end().count() - self.spec_start().count() + 1,
    {
        proof {
            use_type_invariant(self);
        }
        self.len_in_months
    }

    pub fn start(&self) -> (r: Date)
        ensures
            r == self.spec_start(),
    {
        self.start
    }

    pub fn end(&self) -> (r: Date)
        ensures
            r == self.spec_end(),
    {
        self.end
    }

    pub fn contains(&self, d: Date) -> (r: bool)
        ensures
            r == self.holds(d),
    {
        !d.is_before(&self.start) && !self.end.is_before(&d)
    }

    /// Walks the months of the interval from its start.
    pub fn iter(&self) -> (r: IntervalIter)
        ensures
            r.spec_current() == self.spec_start(),
            r.spec_remaining() == self.spec_end().count() - self.spec_start().count() + 1,
    {
        proof {
            use_type_invariant(self);
            use_type_invariant(&self.end);
        }
        IntervalIter { current: self.start, remaining: self.len_in_months }
    }
}

/// Hands out the months of an interval one after the other.
#[derive(Clone, Copy, Debug)]
pub struct IntervalIter {
    current: Date,
    remaining: usize,
}

impl IntervalIter {
    #[verifier::type_invariant]
    closed spec fn wf(self) -> bool {
        self.remaining >= 1 ==> self.current.can_advance(self.remaining - 1)
    }

    pub closed spec fn spec_current(self) -> Date {
        self.current
    }

    pub closed spec fn spec_remaining(self) -> int {
        self.remaining as int
    }

    /// The next month, or `None` once the interval is exhausted.
    pub fn next(&mut self) -> (r: Option<Date>)
        ensures
            old(self).spec_remaining() == 0 ==> r is None && *final(self) == *old(self),
            old(self).spec_remaining() > 0 ==> {
                &&& r == Some(old(self).spec_current())
                &&& final(self).spec_remaining() == old(self).spec_remaining() - 1
                &&& final(self).spec_remaining() > 0 ==> final(self).spec_current() == old(self).spec_current().after(1)
            },
    {
        proof {
            use_type_invariant(&*self);
        }
        if self.remaining == 0 {
            None
        } else {
            let r = self.current;
            let remaining = self.remaining - 1;
            let current = if remaining > 0 {
                self.current.next_month()
            } else {
                self.current
            };
            *self = IntervalIter { current, remaining };
            Some(r)
        }
    }

    /// Exact bounds on the number of months left.
    pub fn size_hint(&self) -> (r: (usize, Option<usize>))
        ensures
            r.0 == self.spec_remaining(),
            r.1 == Some(self.spec_remaining() as usize),
    {
        (self.remaining, Some(self.remaining))
    }
}

/// Formatting a date whose year has at most four digits and reading the text back
/// gives the same date.
pub proof fn lemma_text_round_trip(d: Date)
    requires
        d.valid(),
        d.spec_year() <= 9999,
    ensures
        Date::from_text(d.text()) == Some(d),
{
    let y = d.spec_year() as nat;
    let m = d.spec_month() as nat;
    assert(pow10(4) == 10000 && pow10(2) == 100) by {
        reveal_with_fuel(pow10, 5);
    }
    lemma_padded_decimal_exact(y, 4);
    lemma_padded_decimal_exact(m, 2);
    let t = d.text();
    assert(t.subrange(0, 4) =~= padded_decimal(y, 4));
    assert(t.subrange(5, 7) =~= padded_decimal(m, 2));
    assert(t[4] == '/');
    Date::lemma_count_determines(d);
}

/// For `d1` not after `d2`, the number of months between them is non-negative, and
/// moving that many months on from `d1` lands on `d2`.
pub proof fn lemma_after_between(d1: Date, d2: Date)
    requires
        d1.valid(),
        d2.valid(),
        d1.count() <= d2.count(),
    ensures
        d2.count() - d1.count() >= 0,
        d1.after(d2.count() - d1.count()) == d2,
{
    Date::lemma_count_determines(d2);
}

} // verus!
