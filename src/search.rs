use vstd::prelude::*;

use crate::error::{BlcError, BlcResult, ErrorKind};

verus! {

/// A rebalancing trigger as the search explores it: an interval in months and a
/// deviation threshold in percent, each optional.
#[derive(Clone, Copy, Debug, PartialEq, Eq, Structural)]
pub struct TriggerCandidate {
    pub interval: Option<usize>,
    pub deviation_percent: Option<usize>,
}

/// The number of deviation thresholds tried per interval.
pub const N_DEVIATION_STEPS: usize = 14;

/// The `j`-th deviation threshold in percent: 0 through 9, then 20, 30, 40 and 75.
/// 0 stands for "no deviation condition".
pub open spec fn deviation_step(j: int) -> int {
    if j < 10 {
        j
    } else if j < 13 {
        (j - 8) * 10
    } else {
        75
    }
}

/// The trigger for interval `n` and deviation `d`, where 0 means "not configured".
pub open spec fn candidate(n: int, d: int) -> TriggerCandidate {
    TriggerCandidate {
        interval: if n == 0 {
            None
        } else {
            Some(n as usize)
        },
        deviation_percent: if d == 0 {
            None
        } else {
            Some(d as usize)
        },
    }
}

/// The grid in the order in which the search visits it: intervals `0..shortest_len / 2`,
/// and for each interval every deviation threshold.
pub open spec fn grid_at(k: int) -> TriggerCandidate {
    candidate(k / (N_DEVIATION_STEPS as int), deviation_step(k % (N_DEVIATION_STEPS as int)))
}

fn exec_deviation_step(j: usize) -> (r: usize)
    requires
        j < N_DEVIATION_STEPS,
    ensures
        r == deviation_step(j as int),
{
    if j < 10 {
        j
    } else if j < 13 {
        (j - 8) * 10
    } else {
        75
    }
}

/// Every candidate trigger of the search over series of `shortest_len` months.
pub fn trigger_grid(shortest_len: usize) -> (r: Vec<TriggerCandidate>)
    requires
        (shortest_len / 2) * N_DEVIATION_STEPS <= usize::MAX,
    ensures
        r@.len() == (shortest_len / 2) * N_DEVIATION_STEPS,
        forall|k: int| 0 <= k < r@.len() ==> #[trigger] r@[k] == grid_at(k),
{
    let n_intervals = shortest_len / 2;
    let mut v: Vec<TriggerCandidate> = Vec::new();
    let mut n: usize = 0;
    while n < n_intervals
        invariant
            n <= n_intervals,
            n_intervals == shortest_len / 2,
            n_intervals * N_DEVIATION_STEPS <= usize::MAX,
            v@.len() == n * N_DEVIATION_STEPS,
            forall|k: int| 0 <= k < v@.len() ==> #[trigger] v@[k] == grid_at(k),
        decreases n_intervals - n,
    {
        let mut j: usize = 0;
        while j < N_DEVIATION_STEPS
            invariant
                n < n_intervals,
                j <= N_DEVIATION_STEPS,
                n_intervals * N_DEVIATION_STEPS <= usize::MAX,
                v@.len() == n * N_DEVIATION_STEPS + j,
                forall|k: int| 0 <= k < v@.len() ==> #[trigger] v@[k] == grid_at(k),
            decreases N_DEVIATION_STEPS - j,
        {
            let d = exec_deviation_step(j);
            let c = TriggerCandidate {
                interval: if n == 0 {
                    None
                } else {
                    Some(n)
                },
                deviation_percent: if d == 0 {
                    None
                } else {
                    Some(d)
                },
            };
            proof {
                let k = v@.len() as int;
                vstd::arithmetic::div_mod::lemma_fundamental_div_mod_converse(
                    k,
                    N_DEVIATION_STEPS as int,
                    n as int,
                    j as int,
                );
                assert(c == grid_at(k));
            }
            v.push(c);
            j = j + 1;
        }
        n = n + 1;
    }
    v
}

/// Which candidates a selection considers.
#[derive(Clone, Copy, Debug, PartialEq, Eq, Structural)]
pub enum TriggerFamily {
    /// Every candidate.
    Any,
    /// Candidates without an interval condition.
    DeviationOnly,
    /// Candidates without a deviation condition.
    IntervalOnly,
}

pub open spec fn admits(family: TriggerFamily, c: TriggerCandidate) -> bool {
    match family {
        TriggerFamily::Any => true,
        TriggerFamily::DeviationOnly => c.interval is None,
        TriggerFamily::IntervalOnly => c.deviation_percent is None,
    }
}

pub open spec fn has_member(cands: Seq<TriggerCandidate>, family: TriggerFamily) -> bool {
    exists|j: int| 0 <= j < cands.len() && admits(family, #[trigger] cands[j])
}

/// `k` is the first candidate of `family` whose key is the largest in `family`.
pub open spec fn first_best(
    cands: Seq<TriggerCandidate>,
    keys: Seq<i64>,
    family: TriggerFamily,
    k: int,
) -> bool {
    &&& 0 <= k < cands.len()
    &&& admits(family, cands[k])
    &&& forall|j: int| 0 <= j < cands.len() && admits(family, #[trigger] cands[j]) ==> keys[j] <= keys[k]
    &&& forall|j: int| 0 <= j < k && admits(family, #[trigger] cands[j]) ==> keys[j] < keys[k]
}

/// The winner of a family is determined by the candidates and keys alone: at most one
/// position is the first with the largest key, so repeated searches over the same
/// balances pick the same trigger.
pub proof fn lemma_first_best_unique(
    cands: Seq<TriggerCandidate>,
    keys: Seq<i64>,
    family: TriggerFamily,
    k1: int,
    k2: int,
)
    requires
        first_best(cands, keys, family, k1),
        first_best(cands, keys, family, k2),
    ensures
        k1 == k2,
{
    if k1 < k2 {
        assert(admits(family, cands[k1]));
    } else if k2 < k1 {
        assert(admits(family, cands[k2]));
    }
}

fn exec_admits(family: TriggerFamily, c: &TriggerCandidate) -> (r: bool)
    ensures
        r == admits(family, *c),
{
    match family {
        TriggerFamily::Any => true,
        TriggerFamily::DeviationOnly => c.interval.is_none(),
        TriggerFamily::IntervalOnly => c.deviation_percent.is_none(),
    }
}

/// The first candidate of `family` with the largest key, `None` when the family is empty.
pub fn first_best_index(cands: &[TriggerCandidate], keys: &[i64], family: TriggerFamily) -> (r:
    Option<usize>)
    requires
        cands@.len() == keys@.len(),
    ensures
        r is None <==> !has_member(cands@, family),
        r is Some ==> first_best(cands@, keys@, family, r->Some_0 as int),
{
    let mut best: Option<usize> = None;
    let mut i: usize = 0;
    while i < cands.len()
        invariant
            i <= cands@.len(),
            cands@.len() == keys@.len(),
            best is None <==> forall|j: int| 0 <= j < i ==> !admits(family, #[trigger] cands@[j]),
            best is Some ==> {
                let b = best->Some_0 as int;
                &&& 0 <= b < i
                &&& admits(family, cands@[b])
                &&& forall|j: int| 0 <= j < i && admits(family, #[trigger] cands@[j]) ==> keys@[j]
                    <= keys@[b]
                &&& forall|j: int| 0 <= j < b && admits(family, #[trigger] cands@[j]) ==> keys@[j]
                    < keys@[b]
            },
        decreases cands@.len() - i,
    {
        if exec_admits(family, &cands[i]) {
            best = match best {
                None => Some(i),
                Some(b) => if keys[i] > keys[b] {
                    Some(i)
                } else {
                    Some(b)
                },
            };
        }
        i = i + 1;
    }
    proof {
        if best is None {
            assert forall|j: int| 0 <= j < cands@.len() && admits(family, #[trigger] cands@[j]) implies false by {}
        }
    }
    best
}

/// Positions of the three winners of a trigger search.
#[derive(Clone, Copy, Debug, PartialEq, Eq, Structural)]
pub struct BestIndices {
    /// The best candidate overall.
    pub best: usize,
    /// The best candidate without an interval condition.
    pub with_best_dev: usize,
    /// The best candidate without a deviation condition.
    pub with_best_interval: usize,
}

/// Picks the winners of a trigger search. `keys[k]` ranks the final balance that
/// candidate `k` reached: a larger key for a larger balance. Ties go to the candidate
/// visited first.
pub fn best_of_grid(cands: &[TriggerCandidate], keys: &[i64]) -> (r: BlcResult<BestIndices>)
    ensures
        cands@.len() != keys@.len() ==> r is Err && r->Err_0.kind == ErrorKind::Config,
        cands@.len() == keys@.len() ==> (r is Ok <==> (has_member(cands@, TriggerFamily::DeviationOnly)
            && has_member(cands@, TriggerFamily::IntervalOnly))),
        cands@.len() == keys@.len() && r is Err ==> r->Err_0.kind == ErrorKind::NotFound,
        r is Ok ==> {
            let b = r->Ok_0;
            &&& first_best(cands@, keys@, TriggerFamily::Any, b.best as int)
            &&& first_best(cands@, keys@, TriggerFamily::DeviationOnly, b.with_best_dev as int)
            &&& first_best(cands@, keys@, TriggerFamily::IntervalOnly, b.with_best_interval as int)
        },
{
    if cands.len() != keys.len() {
        return Err(BlcError::new("one key per candidate trigger is needed"));
    }
    let best = first_best_index(cands, keys, TriggerFamily::Any);
    let dev = first_best_index(cands, keys, TriggerFamily::DeviationOnly);
    let interval = first_best_index(cands, keys, TriggerFamily::IntervalOnly);
    match (best, dev, interval) {
        (Some(best), Some(with_best_dev), Some(with_best_interval)) => Ok(
            BestIndices { best, with_best_dev, with_best_interval },
        ),
        _ => {
            proof {
                if dev is Some && interval is Some {
                    let k = choose|j: int| 0 <= j < cands@.len() && admits(TriggerFamily::DeviationOnly, #[trigger] cands@[j]);
                    assert(admits(TriggerFamily::Any, cands@[k]));
                }
            }
            Err(BlcError::with_kind(ErrorKind::NotFound, "could not find a best trigger"))
        },
    }
}

} // verus!
