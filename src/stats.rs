use vstd::prelude::*;

use crate::error::{BlcError, BlcResult, ErrorKind};

verus! {

/// One window length of the statistics: windows of `n_months` months, starting at
/// offsets `0..n_starts`.
#[derive(Clone, Copy, Debug, PartialEq, Eq, Structural)]
pub struct StatWindow {
    pub n_months: usize,
    pub n_starts: usize,
}

/// The windows of every length from `min_n_months` through `shortest_len`, shortest first;
/// each length starts at every offset where a window of it fits in the history.
pub fn stat_windows(shortest_len: usize, min_n_months: usize) -> (r: BlcResult<Vec<StatWindow>>)
    ensures
        min_n_months == 0 <==> r is Err,
        r is Err ==> r->Err_0.kind == ErrorKind::Config,
        r is Ok && min_n_months > shortest_len ==> r->Ok_0@.len() == 0,
        r is Ok && min_n_months <= shortest_len ==> r->Ok_0@.len() == shortest_len - min_n_months
            + 1,
        r is Ok ==> forall|i: int|
            0 <= i < r->Ok_0@.len() ==> #[trigger] r->Ok_0@[i] == (StatWindow {
                n_months: (min_n_months + i) as usize,
                n_starts: (shortest_len - (min_n_months + i) + 1) as usize,
            }),
{
    if min_n_months == 0 {
        return Err(BlcError::new("the shortest window needs at least one month"));
    }
    let mut v: Vec<StatWindow> = Vec::new();
    if min_n_months > shortest_len {
        return Ok(v);
    }
    let count = shortest_len - min_n_months + 1;
    let mut i: usize = 0;
    while i < count
        invariant
            min_n_months >= 1,
            min_n_months <= shortest_len,
            count == shortest_len - min_n_months + 1,
            i <= count,
            v@.len() == i,
            forall|k: int|
                0 <= k < v@.len() ==> #[trigger] v@[k] == (StatWindow {
                    n_months: (min_n_months + k) as usize,
                    n_starts: (shortest_len - (min_n_months + k) + 1) as usize,
                }),
        decreases count - i,
    {
        let n = min_n_months + i;
        v.push(StatWindow { n_months: n, n_starts: shortest_len - n + 1 });
        i = i + 1;
    }
    Ok(v)
}

/// `round(len * p / 100)`, rounding halves up: the record index of the `p`-th percentile
/// when records are counted, not weighed.
pub open spec fn percentile_index(len: int, p: int) -> int {
    (len * p + 50) / 100
}

/// The integer side of a statistics summary: the range of window lengths, the record
/// indices at the 33rd and 67th percentile by count, and the window lengths found there.
/// Bucket means are taken over records `0..n_33`, `n_33..n_67`, `n_67..len` and all.
#[derive(Clone, Copy, Debug, PartialEq, Eq, Structural)]
pub struct SummaryBounds {
    pub min_n_months: usize,
    pub max_n_months: usize,
    pub n_33: usize,
    pub n_67: usize,
    pub n_months_33: usize,
    pub n_months_67: usize,
}

/// Finds the summary bounds for records with window lengths `n_months`, in record order.
pub fn summary_bounds(n_months: &[usize]) -> (r: BlcResult<SummaryBounds>)
    requires
        n_months@.len() * 67 + 50 <= usize::MAX,
    ensures
        n_months@.len() == 0 ==> r is Err && r->Err_0.kind == ErrorKind::NotFound,
        n_months@.len() == 1 ==> r is Err && r->Err_0.kind == ErrorKind::TooShort,
        n_months@.len() >= 2 <==> r is Ok,
        r is Ok ==> {
            let b = r->Ok_0;
            let len = n_months@.len() as int;
            &&& b.n_33 == percentile_index(len, 33)
            &&& b.n_67 == percentile_index(len, 67)
            &&& b.n_33 <= b.n_67 < len
            &&& b.n_months_33 == n_months@[b.n_33 as int]
            &&& b.n_months_67 == n_months@[b.n_67 as int]
            &&& forall|i: int| 0 <= i < len ==> b.min_n_months <= #[trigger] n_months@[i] <= b.max_n_months
            &&& exists|i: int| 0 <= i < len && b.min_n_months == #[trigger] n_months@[i]
            &&& exists|i: int| 0 <= i < len && b.max_n_months == #[trigger] n_months@[i]
        },
{
    let len = n_months.len();
    if len == 0 {
        return Err(BlcError::with_kind(ErrorKind::NotFound, "no records found"));
    }
    if len == 1 {
        return Err(
            BlcError::with_kind(ErrorKind::TooShort, "a summary needs at least two records"),
        );
    }
    let mut lo = n_months[0];
    let mut hi = n_months[0];
    let mut i: usize = 1;
    while i < len
        invariant
            1 <= i <= len,
            len == n_months@.len(),
            forall|j: int| 0 <= j < i ==> lo <= #[trigger] n_months@[j] <= hi,
            exists|j: int| 0 <= j < i && lo == #[trigger] n_months@[j],
            exists|j: int| 0 <= j < i && hi == #[trigger] n_months@[j],
        decreases len - i,
    {
        let x = n_months[i];
        if x < lo {
            lo = x;
        }
        if x > hi {
            hi = x;
        }
        i = i + 1;
    }
    let n_33 = (len * 33 + 50) / 100;
    let n_67 = (len * 67 + 50) / 100;
    proof {
        assert(len * 33 + 50 <= len * 67 + 50);
        assert(n_33 <= n_67) by {
            vstd::arithmetic::div_mod::lemma_div_is_ordered(
                len * 33 + 50,
                len * 67 + 50,
                100,
            );
        }
        assert(n_67 < len) by {
            assert(len * 67 + 50 < 100 * len);
            vstd::arithmetic::div_mod::lemma_div_is_ordered(len * 67 + 50, 100 * len - 1, 100);
            vstd::arithmetic::div_mod::lemma_fundamental_div_mod_converse(
                100 * len - 1,
                100,
                len - 1,
                99,
            );
        }
    }
    Ok(
        SummaryBounds {
            min_n_months: lo,
            max_n_months: hi,
            n_33,
            n_67,
            n_months_33: n_months[n_33],
            n_months_67: n_months[n_67],
        },
    )
}

} // verus!
