use vstd::prelude::*;

use crate::error::{BlcError, BlcResult, ErrorKind};

verus! {

/// Months on either side of a crash whose drift is damped.
pub const CRASH_RADIUS: usize = 3;

pub open spec fn distance(a: int, b: int) -> int {
    if a >= b {
        a - b
    } else {
        b - a
    }
}

/// The distance from month `m` to the nearest crash month, `None` without crashes.
pub open spec fn nearest_crash(m: int, crashes: Seq<usize>) -> Option<int>
    decreases crashes.len(),
{
    if crashes.len() == 0 {
        None
    } else {
        let d = distance(m, crashes.last() as int);
        match nearest_crash(m, crashes.drop_last()) {
            Some(e) => Some(if d < e { d } else { e }),
            None => Some(d),
        }
    }
}

/// For month `m`: the distance to the nearest crash when it is below the crash radius
/// (it selects the damping of the drift), else `None` (no damping).
pub open spec fn damping_index(m: int, crashes: Seq<usize>) -> Option<int> {
    match nearest_crash(m, crashes) {
        Some(d) => if d < CRASH_RADIUS {
            Some(d)
        } else {
            None
        },
        None => None,
    }
}

fn exec_distance(a: usize, b: usize) -> (r: usize)
    ensures
        r == distance(a as int, b as int),
{
    if a >= b {
        a - b
    } else {
        b - a
    }
}

/// For each month `0..n_months` of a simulated path, how its drift is damped by the
/// crashes at the given months (see `damping_index`).
pub fn crash_damping(n_months: usize, crashes: &[usize]) -> (r: Vec<Option<usize>>)
    ensures
        r@.len() == n_months,
        forall|m: int|
            0 <= m < n_months ==> (#[trigger] r@[m] matches Some(d) ==> damping_index(m, crashes@)
                == Some(d as int)) && (r@[m] is None ==> damping_index(m, crashes@) is None),
{
    let mut v: Vec<Option<usize>> = Vec::new();
    let mut m: usize = 0;
    while m < n_months
        invariant
            m <= n_months,
            v@.len() == m,
            forall|k: int|
                0 <= k < m ==> (#[trigger] v@[k] matches Some(d) ==> damping_index(k, crashes@)
                    == Some(d as int)) && (v@[k] is None ==> damping_index(k, crashes@) is None),
        decreases n_months - m,
    {
        let mut nearest: Option<usize> = None;
        let mut i: usize = 0;
        while i < crashes.len()
            invariant
                i <= crashes@.len(),
                nearest matches Some(e) ==> nearest_crash(m as int, crashes@.subrange(0, i as int))
                    == Some(e as int),
                nearest is None ==> nearest_crash(m as int, crashes@.subrange(0, i as int)) is None,
            decreases crashes@.len() - i,
        {
            proof {
                assert(crashes@.subrange(0, i + 1).drop_last() =~= crashes@.subrange(0, i as int));
            }
            let d = exec_distance(m, crashes[i]);
            nearest = match nearest {
                Some(e) => Some(if d < e { d } else { e }),
                None => Some(d),
            };
            i = i + 1;
        }
        proof {
            assert(crashes@.subrange(0, crashes@.len() as int) =~= crashes@);
        }
        let damping = match nearest {
            Some(d) => if d < CRASH_RADIUS {
                Some(d)
            } else {
                None
            },
            None => None,
        };
        v.push(damping);
        m = m + 1;
    }
    v
}

/// The position of the median in a sorted window of `window_size` volatility samples;
/// an empty window is a configuration error.
pub fn median_index(window_size: usize) -> (r: BlcResult<usize>)
    ensures
        r is Ok <==> window_size > 0,
        r is Ok ==> r->Ok_0 == window_size / 2 && r->Ok_0 < window_size,
        r is Err ==> r->Err_0.kind == ErrorKind::Config,
{
    if window_size == 0 {
        Err(BlcError::new("the volatility window needs at least one month"))
    } else {
        Ok(window_size / 2)
    }
}

} // verus!
