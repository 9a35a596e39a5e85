use vstd::prelude::*;

use crate::error::{BlcError, BlcResult, ErrorKind};

verus! {

/// Whether a rebalancing interval is due in `month`: only a positive interval that
/// divides the month triggers.
pub open spec fn interval_due(interval: Option<usize>, month: int) -> bool {
    match interval {
        Some(n) => n > 0 && month % (n as int) == 0,
        None => false,
    }
}

/// The combined trigger rule. `deviation_exceeded` is `None` when no deviation threshold
/// is configured, else whether the largest deviation of a balance share from its target
/// fraction exceeds the threshold. With both conditions configured both must hold;
/// with one, that one decides; with none, nothing triggers.
pub open spec fn triggered(interval: Option<usize>, deviation_exceeded: Option<bool>, month: int) -> bool {
    if interval is Some && deviation_exceeded is Some {
        interval_due(interval, month) && deviation_exceeded == Some(true)
    } else {
        interval_due(interval, month) || deviation_exceeded == Some(true)
    }
}

pub fn is_triggered_by_interval(interval: Option<usize>, month: usize) -> (r: bool)
    ensures
        r == interval_due(interval, month as int),
{
    match interval {
        Some(n) => n > 0 && month % n == 0,
        None => false,
    }
}

pub fn is_triggered(interval: Option<usize>, deviation_exceeded: Option<bool>, month: usize) -> (r: bool)
    ensures
        r == triggered(interval, deviation_exceeded, month as int),
{
    let by_interval = is_triggered_by_interval(interval, month);
    let by_deviation = match deviation_exceeded {
        Some(b) => b,
        None => false,
    };
    if interval.is_some() && deviation_exceeded.is_some() {
        by_interval && by_deviation
    } else {
        by_interval || by_deviation
    }
}

/// The length of the shortest series, `None` when there is none.
pub open spec fn shortest(lens: Seq<usize>) -> Option<int>
    decreases lens.len(),
{
    if lens.len() == 0 {
        None
    } else {
        match shortest(lens.drop_last()) {
            Some(m) => Some(if lens.last() < m { lens.last() as int } else { m }),
            None => Some(lens.last() as int),
        }
    }
}

pub proof fn lemma_shortest(lens: Seq<usize>)
    ensures
        shortest(lens) is Some <==> lens.len() > 0,
        shortest(lens) is Some ==> {
            &&& forall|i: int| 0 <= i < lens.len() ==> shortest(lens)->Some_0 <= #[trigger] lens[i]
            &&& exists|i: int| 0 <= i < lens.len() && shortest(lens)->Some_0 == #[trigger] lens[i]
        },
    decreases lens.len(),
{
    if lens.len() > 0 {
        let u = lens.drop_last();
        lemma_shortest(u);
        let last = lens.len() - 1;
        assert forall|i: int| 0 <= i < lens.len() implies shortest(lens)->Some_0 <= #[trigger] lens[i] by {
            if i < last {
                assert(lens[i] == u[i]);
            }
        }
        if shortest(u) is Some && shortest(u)->Some_0 <= lens.last() {
            let k = choose|k: int| 0 <= k < u.len() && shortest(u)->Some_0 == #[trigger] u[k];
            assert(lens[k] == u[k]);
        } else {
            assert(shortest(lens)->Some_0 == lens[last]);
        }
    }
}

/// The length of the shortest series.
pub fn find_shortestlen(lens: &[usize]) -> (r: Option<usize>)
    ensures
        r is Some <==> lens@.len() > 0,
        r is Some ==> shortest(lens@) == Some(r->Some_0 as int),
        r is Some ==> forall|i: int| 0 <= i < lens@.len() ==> r->Some_0 <= #[trigger] lens@[i],
        r is Some ==> exists|i: int| 0 <= i < lens@.len() && r->Some_0 == #[trigger] lens@[i],
{
    let mut best: Option<usize> = None;
    let mut i: usize = 0;
    while i < lens.len()
        invariant
            i <= lens@.len(),
            best is Some ==> shortest(lens@.subrange(0, i as int)) == Some(best->Some_0 as int),
            best is None <==> i == 0,
        decreases lens@.len() - i,
    {
        proof {
            assert(lens@.subrange(0, i + 1).drop_last() =~= lens@.subrange(0, i as int));
        }
        let l = lens[i];
        best = match best {
            Some(m) => Some(if l < m { l } else { m }),
            None => Some(l),
        };
        i = i + 1;
    }
    proof {
        assert(lens@.subrange(0, lens@.len() as int) =~= lens@);
        lemma_shortest(lens@);
    }
    best
}

/// Checks the series lengths (one per asset) and the number of target fractions before
/// a simulation, and gives the number of months to simulate over: the shortest length.
pub fn check_series(lens: &[usize], n_fractions: usize) -> (r: BlcResult<usize>)
    ensures
        lens@.len() == 0 ==> r is Err && r->Err_0.kind == ErrorKind::EmptyInput,
        lens@.len() > 0 && n_fractions != lens@.len() ==> r is Err && r->Err_0.kind
            == ErrorKind::Config,
        lens@.len() > 0 && n_fractions == lens@.len() && shortest(lens@)->Some_0 < 2 ==> r is Err
            && r->Err_0.kind == ErrorKind::TooShort,
        lens@.len() > 0 && n_fractions == lens@.len() && shortest(lens@)->Some_0 >= 2 ==> r == Ok::<
            usize,
            BlcError,
        >(shortest(lens@)->Some_0 as usize),
{
    match find_shortestlen(lens) {
        None => Err(BlcError::with_kind(ErrorKind::EmptyInput, "no price series given")),
        Some(shortest_len) => {
            if n_fractions != lens.len() {
                Err(BlcError::new("there must be one fraction per price series"))
            } else if shortest_len < 2 {
                Err(
                    BlcError::with_kind(
                        ErrorKind::TooShort,
                        "price series need at least two points to simulate a step",
                    ),
                )
            } else {
                Ok(shortest_len)
            }
        },
    }
}

} // verus!
