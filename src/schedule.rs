use vstd::prelude::*;

use crate::date::{Date, Interval};
use crate::error::{BlcError, BlcResult, ErrorKind};

verus! {

/// Whether a payment rule with this interval (none: every month) applies in month `d`.
pub open spec fn applies(interval: Option<Interval>, d: Date) -> bool {
    match interval {
        Some(iv) => iv.holds(d),
        None => true,
    }
}

/// The payments among `rules` that apply in month `d`, in rule order.
pub open spec fn due_in<E>(rules: Seq<(E, Option<Interval>)>, d: Date) -> Seq<E>
    decreases rules.len(),
{
    if rules.len() == 0 {
        Seq::empty()
    } else {
        let rest = due_in(rules.drop_last(), d);
        if applies(rules.last().1, d) {
            rest.push(rules.last().0)
        } else {
            rest
        }
    }
}

/// Monthly payment rules: each a payment (a formula of the current and the initial
/// balance, of type `E`) with an optional interval of months in which it applies. All
/// rules that apply in a month are summed.
#[derive(Debug)]
pub struct MonthlyPayments<E> {
    payments: Vec<E>,
    intervals: Vec<Option<Interval>>,
}

impl<E> MonthlyPayments<E> {
    #[verifier::type_invariant]
    closed spec fn wf(self) -> bool {
        self.payments@.len() == self.intervals@.len()
    }

    /// The rules, each a payment with its interval.
    pub closed spec fn rules(self) -> Seq<(E, Option<Interval>)> {
        Seq::new(self.payments@.len(), |i: int| (self.payments@[i], self.intervals@[i]))
    }

    /// One rule per payment, each restricted to the interval at the same position; a
    /// configuration error when the counts differ.
    pub fn from_intervals(payments: Vec<E>, intervals: Vec<Interval>) -> (r: BlcResult<Self>)
        ensures
            r is Ok <==> payments@.len() == intervals@.len(),
            r is Err ==> r->Err_0.kind == ErrorKind::Config,
            r is Ok ==> r->Ok_0.rules().len() == payments@.len() && forall|i: int|
                0 <= i < payments@.len() ==> #[trigger] r->Ok_0.rules()[i] == (
                    payments@[i],
                    Some(intervals@[i]),
                ),
    {
        if payments.len() != intervals.len() {
            return Err(BlcError::new("payments and intervals need to be equally long"));
        }
        let mut wrapped: Vec<Option<Interval>> = Vec::new();
        let mut i: usize = 0;
        while i < intervals.len()
            invariant
                i <= intervals@.len(),
                wrapped@.len() == i,
                forall|k: int| 0 <= k < i ==> #[trigger] wrapped@[k] == Some(intervals@[k]),
            decreases intervals@.len() - i,
        {
            wrapped.push(Some(intervals[i]));
            i = i + 1;
        }
        Ok(MonthlyPayments { payments, intervals: wrapped })
    }

    /// A single rule that applies in every month.
    pub fn from_single_payment(payment: E) -> (r: Self)
        ensures
            r.rules() == seq![(payment, None::<Interval>)],
    {
        let r = MonthlyPayments { payments: vec![payment], intervals: vec![None] };
        proof {
            assert(r.rules() =~= seq![(payment, None::<Interval>)]);
        }
        r
    }

    /// The payments due in month `current_date`, in rule order.
    pub fn due(&self, current_date: Date) -> (r: Vec<&E>)
        ensures
            r@.len() == due_in(self.rules(), current_date).len(),
            forall|k: int| 0 <= k < r@.len() ==> *#[trigger] r@[k] == due_in(self.rules(), current_date)[k],
    {
        proof {
            use_type_invariant(self);
        }
        let mut v: Vec<&E> = Vec::new();
        let mut i: usize = 0;
        while i < self.payments.len()
            invariant
                i <= self.payments@.len(),
                self.payments@.len() == self.intervals@.len(),
                v@.len() == due_in(self.rules().subrange(0, i as int), current_date).len(),
                forall|k: int|
                    0 <= k < v@.len() ==> *#[trigger] v@[k] == due_in(
                        self.rules().subrange(0, i as int),
                        current_date,
                    )[k],
            decreases self.payments@.len() - i,
        {
            proof {
                assert(self.rules().subrange(0, i + 1).drop_last() =~= self.rules().subrange(
                    0,
                    i as int,
                ));
            }
            let applies = match &self.intervals[i] {
                Some(iv) => iv.contains(current_date),
                None => true,
            };
            if applies {
                v.push(&self.payments[i]);
            }
            i = i + 1;
        }
        proof {
            assert(self.rules().subrange(0, self.payments@.len() as int) =~= self.rules());
        }
        v
    }
}

impl<E: Clone> Clone for MonthlyPayments<E> {
    fn clone(&self) -> (r: Self) {
        proof {
            use_type_invariant(self);
        }
        MonthlyPayments { payments: self.payments.clone(), intervals: self.intervals.clone() }
    }
}

} // verus!
